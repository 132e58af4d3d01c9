//! Text matching on strings as sequences of characters: equality, prefixes,
//! suffixes, occurrences and the pieces of a split.

use vstd::prelude::*;

verus! {

/// Whether `p` occurs in `s` starting at index `i`.
pub open spec fn occurs_at(s: Seq<char>, p: Seq<char>, i: int) -> bool {
    0 <= i && i + p.len() <= s.len() && s.subrange(i, i + p.len()) == p
}

/// Whether `p` occurs anywhere in `s` (`str::contains`).
pub open spec fn has_infix(s: Seq<char>, p: Seq<char>) -> bool {
    exists|i: int| occurs_at(s, p, i)
}

/// Whether `s` begins with `p` (`str::starts_with`).
pub open spec fn has_prefix(s: Seq<char>, p: Seq<char>) -> bool {
    p.len() <= s.len() && s.subrange(0, p.len() as int) == p
}

/// Whether `s` ends with `p` (`str::ends_with`).
pub open spec fn has_suffix(s: Seq<char>, p: Seq<char>) -> bool {
    p.len() <= s.len() && s.subrange(s.len() - p.len(), s.len() as int) == p
}

/// The first index at or after `i` where `p` occurs in `s`.
pub open spec fn find_from(s: Seq<char>, p: Seq<char>, i: int) -> Option<int>
    decreases s.len() + 1 - i,
{
    if i < 0 || i + p.len() > s.len() {
        None
    } else if occurs_at(s, p, i) {
        Some(i)
    } else {
        find_from(s, p, i + 1)
    }
}

/// The first piece of `s` split at `p` (`s.split(p).next()`, never `None`).
pub open spec fn split_first(s: Seq<char>, p: Seq<char>) -> Seq<char> {
    match find_from(s, p, 0) {
        Some(i) => s.subrange(0, i),
        None => s,
    }
}

/// The last piece of `s` split at a non-empty `p` (`s.split(p).last()`),
/// matching occurrences from left to right without overlap.
pub open spec fn split_last(s: Seq<char>, p: Seq<char>) -> Seq<char>
    decreases s.len(),
{
    if p.len() == 0 {
        s
    } else {
        match find_from(s, p, 0) {
            Some(i) => {
                proof {
                    lemma_find_from(s, p, 0);
                }
                split_last(s.subrange(i + p.len(), s.len() as int), p)
            },
            None => s,
        }
    }
}

/// `s` with every leading repetition of a non-empty `p` removed
/// (`str::trim_start_matches`).
pub open spec fn trim_start_all(s: Seq<char>, p: Seq<char>) -> Seq<char>
    decreases s.len(),
{
    if p.len() > 0 && has_prefix(s, p) {
        trim_start_all(s.subrange(p.len() as int, s.len() as int), p)
    } else {
        s
    }
}

/// `find_from` finds the first occurrence at or after `i`.
pub proof fn lemma_find_from(s: Seq<char>, p: Seq<char>, i: int)
    requires
        0 <= i,
    ensures
        match find_from(s, p, i) {
            Some(k) => i <= k && occurs_at(s, p, k) && forall|j: int| i <= j < k ==> !occurs_at(s, p, j),
            None => forall|j: int| i <= j ==> !occurs_at(s, p, j),
        },
    decreases s.len() + 1 - i,
{
    if i + p.len() > s.len() {
    } else if occurs_at(s, p, i) {
    } else {
        lemma_find_from(s, p, i + 1);
    }
}

/// `p` occurs in `s` exactly when a search from the start finds it.
pub proof fn lemma_has_infix_find(s: Seq<char>, p: Seq<char>)
    ensures
        has_infix(s, p) <==> find_from(s, p, 0) is Some,
{
    lemma_find_from(s, p, 0);
}

/// The characters of `s`.
pub fn chars_of(s: &str) -> (r: Vec<char>)
    ensures
        r@ == s@,
{
    let n = s.unicode_len();
    let mut r: Vec<char> = Vec::new();
    let mut i: usize = 0;
    while i < n
        invariant
            n == s@.len(),
            i <= n,
            r@ == s@.subrange(0, i as int),
        decreases n - i,
    {
        let c = s.get_char(i);
        r.push(c);
        i = i + 1;
        assert(r@ =~= s@.subrange(0, i as int));
    }
    assert(r@ =~= s@);
    r
}

/// Whether `p` occurs in `s` at index `i`.
pub fn occurs_at_exec(s: &Vec<char>, p: &Vec<char>, i: usize) -> (r: bool)
    ensures
        r == occurs_at(s@, p@, i as int),
{
    if i > s.len() || p.len() > s.len() - i {
        return false;
    }
    let mut k: usize = 0;
    while k < p.len()
        invariant
            i + p@.len() <= s@.len(),
            s@.len() <= usize::MAX,
            k <= p@.len(),
            forall|j: int| 0 <= j < k ==> s@[i + j] == p@[j],
        decreases p@.len() - k,
    {
        if s[i + k] != p[k] {
            assert(s@.subrange(i as int, i + p@.len())[k as int] != p@[k as int]);
            return false;
        }
        k = k + 1;
    }
    assert(s@.subrange(i as int, i + p@.len()) =~= p@);
    true
}

/// The first index at or after `i` where `p` occurs in `s`.
pub fn find_from_exec(s: &Vec<char>, p: &Vec<char>, i: usize) -> (r: Option<usize>)
    ensures
        match r {
            Some(k) => find_from(s@, p@, i as int) == Some(k as int),
            None => find_from(s@, p@, i as int) is None,
        },
{
    let mut j: usize = i;
    while j <= s.len() && p.len() <= s.len() - j
        invariant
            i <= j,
            find_from(s@, p@, i as int) == find_from(s@, p@, j as int),
        decreases s@.len() + 1 - j,
    {
        if occurs_at_exec(s, p, j) {
            return Some(j);
        }
        if j == s.len() {
            assert(find_from(s@, p@, j + 1) is None);
            return None;
        }
        j = j + 1;
    }
    None
}

/// `str::contains`.
pub fn contains(s: &str, p: &str) -> (r: bool)
    ensures
        r == has_infix(s@, p@),
{
    proof {
        lemma_has_infix_find(s@, p@);
    }
    let sc = chars_of(s);
    let pc = chars_of(p);
    find_from_exec(&sc, &pc, 0).is_some()
}

/// `str::starts_with`.
pub fn starts_with(s: &str, p: &str) -> (r: bool)
    ensures
        r == has_prefix(s@, p@),
{
    let sc = chars_of(s);
    let pc = chars_of(p);
    occurs_at_exec(&sc, &pc, 0)
}

/// `str::ends_with`.
pub fn ends_with(s: &str, p: &str) -> (r: bool)
    ensures
        r == has_suffix(s@, p@),
{
    let sc = chars_of(s);
    let pc = chars_of(p);
    if pc.len() > sc.len() {
        false
    } else {
        occurs_at_exec(&sc, &pc, sc.len() - pc.len())
    }
}

/// `==` on strings.
pub fn str_eq(a: &str, b: &str) -> (r: bool)
    ensures
        r == (a@ == b@),
{
    let x = String::from_str(a);
    let y = String::from_str(b);
    x == y
}

/// The characters `s[from..to]` as a string.
pub fn substring(s: &str, from: usize, to: usize) -> (r: String)
    requires
        from <= to <= s@.len(),
    ensures
        r@ == s@.subrange(from as int, to as int),
{
    s.substring_char(from, to).to_owned()
}

/// `s.split(p).next().unwrap()`.
pub fn first_piece(s: &str, p: &str) -> (r: String)
    ensures
        r@ == split_first(s@, p@),
{
    let sc = chars_of(s);
    let pc = chars_of(p);
    proof {
        lemma_find_from(s@, p@, 0);
    }
    match find_from_exec(&sc, &pc, 0) {
        Some(i) => substring(s, 0, i),
        None => String::from_str(s),
    }
}

/// `s.split(p).last().unwrap()`, for a non-empty `p`.
pub fn last_piece(s: &str, p: &str) -> (r: String)
    requires
        p@.len() > 0,
    ensures
        r@ == split_last(s@, p@),
{
    let sc = chars_of(s);
    let pc = chars_of(p);
    let mut start: usize = 0;
    assert(s@.subrange(0, s@.len() as int) =~= s@);
    // the remainder s[start..] has the same last piece as s
    loop
        invariant
            sc@ == s@,
            pc@ == p@,
            p@.len() > 0,
            start <= s@.len(),
            split_last(s@, p@) == split_last(s@.subrange(start as int, s@.len() as int), p@),
        decreases s@.len() - start,
    {
        let ghost rest = s@.subrange(start as int, s@.len() as int);
        proof {
            lemma_find_from(s@, p@, start as int);
            lemma_find_from(rest, p@, 0);
            lemma_find_shift(s@, p@, start as int);
        }
        match find_from_exec(&sc, &pc, start) {
            Some(i) => {
                assert(occurs_at(s@, p@, i as int));
                assert(i + p@.len() <= sc.len());
                assert(find_from(rest, p@, 0) == Some(i - start));
                assert(rest.subrange(i - start + p@.len(), rest.len() as int) =~= s@.subrange(
                    i + p@.len(),
                    s@.len() as int,
                ));
                start = i + pc.len();
            },
            None => {
                assert(find_from(rest, p@, 0) is None);
                return substring(s, start, sc.len());
            },
        }
    }
}

/// Searching a suffix of `s` from its start is searching `s` from where the suffix begins.
pub proof fn lemma_find_shift(s: Seq<char>, p: Seq<char>, start: int)
    requires
        0 <= start <= s.len(),
    ensures
        match find_from(s, p, start) {
            Some(k) => find_from(s.subrange(start, s.len() as int), p, 0) == Some(k - start),
            None => find_from(s.subrange(start, s.len() as int), p, 0) is None,
        },
{
    let rest = s.subrange(start, s.len() as int);
    assert forall|j: int| #![trigger occurs_at(rest, p, j)] 0 <= j implies occurs_at(rest, p, j) == occurs_at(s, p, j + start) by {
        if j + p.len() <= rest.len() {
            assert(rest.subrange(j, j + p.len()) =~= s.subrange(j + start, j + start + p.len()));
        }
    }
    lemma_find_from(s, p, start);
    lemma_find_from(rest, p, 0);
    match find_from(s, p, start) {
        Some(k) => {
            assert(occurs_at(rest, p, k - start));
            if find_from(rest, p, 0) != Some(k - start) {
                let m = find_from(rest, p, 0)->0;
                assert(occurs_at(s, p, m + start));
            }
        },
        None => {
            if find_from(rest, p, 0) is Some {
                let m = find_from(rest, p, 0)->0;
                assert(occurs_at(s, p, m + start));
            }
        },
    }
}

/// Whether no two of `items` have the same text.
pub open spec fn distinct_texts(items: Seq<String>) -> bool {
    forall|i: int, j: int| 0 <= i < j < items.len() ==> items[i]@ != items[j]@
}

/// A set of strings, each held once, in the order first added.
pub struct TextSet {
    items: Vec<String>,
}

impl TextSet {
    #[verifier::type_invariant]
    spec fn held_once(&self) -> bool {
        distinct_texts(self.items@)
    }

    /// The texts held.
    pub closed spec fn members(&self) -> Set<Seq<char>> {
        self.items@.map_values(|c: String| c@).to_set()
    }

    pub fn new() -> (r: TextSet)
        ensures
            r.members() == Set::<Seq<char>>::empty(),
    {
        let r = TextSet { items: Vec::new() };
        assert(r.items@.map_values(|c: String| c@) =~= Seq::<Seq<char>>::empty());
        r
    }

    /// Adds `text`; `true` when it was not held before.
    pub fn insert(&mut self, text: &str) -> (r: bool)
        ensures
            r == !old(self).members().contains(text@),
            final(self).members() == old(self).members().insert(text@),
    {
        proof {
            use_type_invariant(&*self);
        }
        let ghost names = self.items@.map_values(|c: String| c@);
        let mut i: usize = 0;
        while i < self.items.len()
            invariant
                i <= self.items@.len(),
                names == self.items@.map_values(|c: String| c@),
                forall|j: int| 0 <= j < i ==> names[j] != text@,
            decreases self.items@.len() - i,
        {
            if str_eq(self.items[i].as_str(), text) {
                assert(names[i as int] == text@);
                return false;
            }
            i = i + 1;
        }
        assert(!names.contains(text@));
        let ghost before = self.items@;
        let mut items = Vec::new();
        std::mem::swap(&mut items, &mut self.items);
        items.push(String::from_str(text));
        assert(distinct_texts(items@)) by {
            assert forall|a: int, b: int| 0 <= a < b < items@.len() implies items@[a]@ != items@[b]@ by {
                if b == items@.len() - 1 {
                    assert(names[a] == before[a]@);
                }
            }
        }
        self.items = items;
        assert(self.items@.map_values(|c: String| c@) =~= names.push(text@));
        proof {
            names.lemma_push_to_set_commute(text@);
        }
        true
    }

    /// The texts held, each once.
    pub fn to_vec(&self) -> (r: Vec<String>)
        ensures
            r@.map_values(|c: String| c@).to_set() == self.members(),
            distinct_texts(r@),
    {
        proof {
            use_type_invariant(self);
        }
        let mut r: Vec<String> = Vec::new();
        let mut i: usize = 0;
        while i < self.items.len()
            invariant
                i <= self.items@.len(),
                r@ == self.items@.subrange(0, i as int),
            decreases self.items@.len() - i,
        {
            r.push(self.items[i].clone());
            i = i + 1;
            assert(r@ =~= self.items@.subrange(0, i as int));
        }
        assert(r@ =~= self.items@);
        r
    }
}

/// `s.trim_start_matches(p)`, for a non-empty `p`.
pub fn trim_start_matches(s: &str, p: &str) -> (r: String)
    requires
        p@.len() > 0,
    ensures
        r@ == trim_start_all(s@, p@),
{
    let sc = chars_of(s);
    let pc = chars_of(p);
    let mut start: usize = 0;
    assert(s@.subrange(0, s@.len() as int) =~= s@);
    loop
        invariant
            sc@ == s@,
            pc@ == p@,
            p@.len() > 0,
            start <= s@.len(),
            trim_start_all(s@, p@) == trim_start_all(s@.subrange(start as int, s@.len() as int), p@),
        decreases s@.len() - start,
    {
        let ghost rest = s@.subrange(start as int, s@.len() as int);
        if occurs_at_exec(&sc, &pc, start) {
            assert(start + p@.len() <= sc.len());
            assert(rest.subrange(0, p@.len() as int) =~= s@.subrange(start as int, start + p@.len()));
            assert(rest.subrange(p@.len() as int, rest.len() as int) =~= s@.subrange(
                start + p@.len(),
                s@.len() as int,
            ));
            start = start + pc.len();
        } else {
            proof {
                if has_prefix(rest, p@) {
                    assert(rest.subrange(0, p@.len() as int) =~= s@.subrange(start as int, start + p@.len()));
                }
            }
            return substring(s, start, sc.len());
        }
    }
}

/// The character of the decimal digit `d`, for `d` from 0 to 9.
pub open spec fn digit_char(d: int) -> char {
    if d == 0 {
        '0'
    } else if d == 1 {
        '1'
    } else if d == 2 {
        '2'
    } else if d == 3 {
        '3'
    } else if d == 4 {
        '4'
    } else if d == 5 {
        '5'
    } else if d == 6 {
        '6'
    } else if d == 7 {
        '7'
    } else if d == 8 {
        '8'
    } else {
        '9'
    }
}

/// The decimal digits of `n`, most significant first, without leading zeros.
pub open spec fn digits_text(n: nat) -> Seq<char>
    decreases n,
{
    if n < 10 {
        seq![digit_char(n as int)]
    } else {
        digits_text(n / 10).push(digit_char((n % 10) as int))
    }
}

/// The decimal text of `v` as `i32::to_string` writes it: a minus sign when
/// `v` is negative, then the digits of its magnitude.
pub open spec fn decimal_text(v: int) -> Seq<char> {
    if v < 0 {
        seq!['-'] + digits_text((-v) as nat)
    } else {
        digits_text(v as nat)
    }
}

/// The one-character text of the digit `d`.
fn digit_str(d: u32) -> (r: &'static str)
    requires
        d < 10,
    ensures
        r@ == seq![digit_char(d as int)],
{
    proof {
        reveal_strlit("0");
        reveal_strlit("1");
        reveal_strlit("2");
        reveal_strlit("3");
        reveal_strlit("4");
        reveal_strlit("5");
        reveal_strlit("6");
        reveal_strlit("7");
        reveal_strlit("8");
        reveal_strlit("9");
        assert("0"@ =~= seq!['0']);
        assert("1"@ =~= seq!['1']);
        assert("2"@ =~= seq!['2']);
        assert("3"@ =~= seq!['3']);
        assert("4"@ =~= seq!['4']);
        assert("5"@ =~= seq!['5']);
        assert("6"@ =~= seq!['6']);
        assert("7"@ =~= seq!['7']);
        assert("8"@ =~= seq!['8']);
        assert("9"@ =~= seq!['9']);
    }
    if d == 0 {
        "0"
    } else if d == 1 {
        "1"
    } else if d == 2 {
        "2"
    } else if d == 3 {
        "3"
    } else if d == 4 {
        "4"
    } else if d == 5 {
        "5"
    } else if d == 6 {
        "6"
    } else if d == 7 {
        "7"
    } else if d == 8 {
        "8"
    } else {
        "9"
    }
}

/// `v.to_string()` for an `i32`: its decimal text.
pub fn i32_to_string(v: i32) -> (r: String)
    ensures
        r@ == decimal_text(v as int),
{
    let neg = v < 0;
    let mut m: u32 = if neg {
        (0i64 - v as i64) as u32
    } else {
        v as u32
    };
    let ghost n: nat = if v < 0 {
        (-v) as nat
    } else {
        v as nat
    };
    let mut s = String::new();
    assert(digits_text(n) =~= digits_text(m as nat) + s@);
    while m >= 10
        invariant
            digits_text(n) == digits_text(m as nat) + s@,
        decreases m,
    {
        let d = m % 10;
        let ghost before = s@;
        s = String::from_str(digit_str(d)).concat(s.as_str());
        assert(digits_text(m as nat) == digits_text((m / 10) as nat).push(digit_char(d as int)));
        assert(digits_text((m / 10) as nat) + s@ =~= digits_text((m / 10) as nat).push(digit_char(d as int))
            + before);
        m = m / 10;
    }
    let ghost before = s@;
    s = String::from_str(digit_str(m)).concat(s.as_str());
    assert(s@ =~= digits_text(m as nat) + before);
    if neg {
        proof {
            reveal_strlit("-");
            assert("-"@ =~= seq!['-']);
        }
        s = String::from_str("-").concat(s.as_str());
    }
    s
}

} // verus!
