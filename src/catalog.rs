use vstd::prelude::*;
use vstd::string::StringExecFns;

use crate::text::{
    ascii_ci_eq,
    ascii_ci_eq_char,
    chars_of,
    eq_ignore_ascii_case,
    is_white_space,
    same_chars,
    trim,
    trimmed,
};

verus! {

/// One stored text: the stem and extension of its file name, and its body.
#[derive(Clone, Debug)]
pub struct Writing {
    pub stem: String,
    pub extension: String,
    pub body: String,
}

/// Why a lookup found no text.
#[derive(Clone, Debug)]
pub enum LookupError {
    /// The name was empty once white space was trimmed.
    Empty,
    /// No stored text has this (trimmed) name.
    NotFound(String),
}

pub open spec fn txt_extension() -> Seq<char> {
    seq!['t', 'x', 't']
}

/// `w` is the file `<t>.txt`.
pub open spec fn exact_match(w: Writing, t: Seq<char>) -> bool {
    w.stem@ == t && w.extension@ == txt_extension()
}

/// The stem of `w` is `t` up to ASCII case.
pub open spec fn loose_match(w: Writing, t: Seq<char>) -> bool {
    ascii_ci_eq(w.stem@, t)
}

/// Index of the first writing from `i` on that is the file `<t>.txt`;
/// `table.len()` when none is.
pub open spec fn first_exact(table: Seq<Writing>, t: Seq<char>, i: int) -> int
    decreases table.len() - i,
{
    if i >= table.len() {
        table.len() as int
    } else if exact_match(table[i], t) {
        i
    } else {
        first_exact(table, t, i + 1)
    }
}

/// Index of the first writing from `i` on whose stem is `t` up to ASCII case;
/// `table.len()` when none is.
pub open spec fn first_loose(table: Seq<Writing>, t: Seq<char>, i: int) -> int
    decreases table.len() - i,
{
    if i >= table.len() {
        table.len() as int
    } else if loose_match(table[i], t) {
        i
    } else {
        first_loose(table, t, i + 1)
    }
}

/// Index of the writing found under the trimmed name `t`: the file `<t>.txt`
/// if there is one, else the first whose stem is `t` up to ASCII case, else
/// `table.len()`.
pub open spec fn lookup_index(table: Seq<Writing>, t: Seq<char>) -> int {
    let e = first_exact(table, t, 0);
    if e < table.len() {
        e
    } else {
        first_loose(table, t, 0)
    }
}

pub open spec fn empty_name_message() -> Seq<char> {
    "Writing name must not be empty"@
}

pub open spec fn not_found_prefix() -> Seq<char> {
    "Writing not found: "@
}

impl LookupError {
    /// The message shown to the user.
    pub fn message(&self) -> (r: String)
        ensures
            r@ == (match self {
                LookupError::Empty => empty_name_message(),
                LookupError::NotFound(n) => not_found_prefix() + n@,
            }),
    {
        match self {
            LookupError::Empty => "Writing name must not be empty".to_owned(),
            LookupError::NotFound(n) => {
                let mut m = "Writing not found: ".to_owned();
                m.append(n.as_str());
                m
            },
        }
    }
}

fn find_exact(table: &Vec<Writing>, t: &Vec<char>) -> (r: usize)
    ensures
        r == first_exact(table@, t@, 0),
{
    let ext: Vec<char> = vec!['t', 'x', 't'];
    assert(ext@ =~= txt_extension());
    let mut i: usize = 0;
    while i < table.len()
        invariant
            ext@ == txt_extension(),
            i <= table@.len(),
            first_exact(table@, t@, 0) == first_exact(table@, t@, i as int),
        decreases table@.len() - i,
    {
        let stem = chars_of(table[i].stem.as_str());
        let e = chars_of(table[i].extension.as_str());
        if same_chars(&stem, t) && same_chars(&e, &ext) {
            return i;
        }
        i = i + 1;
    }
    i
}

fn find_loose(table: &Vec<Writing>, t: &Vec<char>) -> (r: usize)
    ensures
        r == first_loose(table@, t@, 0),
{
    let mut i: usize = 0;
    while i < table.len()
        invariant
            i <= table@.len(),
            first_loose(table@, t@, 0) == first_loose(table@, t@, i as int),
        decreases table@.len() - i,
    {
        let stem = chars_of(table[i].stem.as_str());
        if eq_ignore_ascii_case(&stem, t) {
            return i;
        }
        i = i + 1;
    }
    i
}

proof fn lemma_first_exact_bound(table: Seq<Writing>, t: Seq<char>, i: int)
    requires
        0 <= i,
    ensures
        i <= table.len() ==> i <= first_exact(table, t, i) <= table.len(),
        i > table.len() ==> first_exact(table, t, i) == table.len(),
    decreases table.len() - i,
{
    if i < table.len() {
        lemma_first_exact_bound(table, t, i + 1);
    }
}

proof fn lemma_first_loose_bound(table: Seq<Writing>, t: Seq<char>, i: int)
    requires
        0 <= i,
    ensures
        i <= table.len() ==> i <= first_loose(table, t, i) <= table.len(),
        i > table.len() ==> first_loose(table, t, i) == table.len(),
    decreases table.len() - i,
{
    if i < table.len() {
        lemma_first_loose_bound(table, t, i + 1);
    }
}

/// Looks up a stored text by name. The name is trimmed; an empty name is
/// rejected before any lookup. The file `<name>.txt` is preferred; otherwise
/// the first writing whose stem is the name up to ASCII case is taken.
pub fn read_poem(table: &Vec<Writing>, name: &str) -> (r: Result<String, LookupError>)
    ensures
        match r {
            Ok(body) => {
                let k = lookup_index(table@, trimmed(name@));
                &&& trimmed(name@).len() > 0
                &&& 0 <= k < table@.len()
                &&& body@ == table@[k].body@
            },
            Err(LookupError::Empty) => trimmed(name@).len() == 0,
            Err(LookupError::NotFound(n)) => {
                &&& trimmed(name@).len() > 0
                &&& lookup_index(table@, trimmed(name@)) >= table@.len()
                &&& n@ == trimmed(name@)
            },
        },
{
    let t = trim(name);
    let tc = chars_of(t);
    if tc.len() == 0 {
        return Err(LookupError::Empty);
    }
    proof {
        lemma_first_exact_bound(table@, tc@, 0);
        lemma_first_loose_bound(table@, tc@, 0);
    }
    let e = find_exact(table, &tc);
    if e < table.len() {
        return Ok(table[e].body.clone());
    }
    let l = find_loose(table, &tc);
    if l < table.len() {
        return Ok(table[l].body.clone());
    }
    Err(LookupError::NotFound(t.to_owned()))
}

} // verus!

verus! {

/// No two stored texts have stems that agree up to ASCII case.
pub open spec fn stems_distinct(table: Seq<Writing>) -> bool {
    forall|i: int, j: int|
        0 <= i < table.len() && 0 <= j < table.len() && i != j ==> !ascii_ci_eq(
            #[trigger] table[i].stem@,
            #[trigger] table[j].stem@,
        )
}

proof fn lemma_ci_eq_equiv(a: Seq<char>, b: Seq<char>, c: Seq<char>)
    ensures
        ascii_ci_eq(a, a),
        ascii_ci_eq(a, b) ==> ascii_ci_eq(b, a),
        ascii_ci_eq(a, b) && ascii_ci_eq(b, c) ==> ascii_ci_eq(a, c),
{
    if ascii_ci_eq(a, b) && ascii_ci_eq(b, c) {
        assert forall|i: int| 0 <= i < a.len() implies ascii_ci_eq_char(#[trigger] a[i], c[i]) by {
            assert(ascii_ci_eq_char(a[i], b[i]));
            assert(ascii_ci_eq_char(b[i], c[i]));
        }
    }
    if ascii_ci_eq(a, b) {
        assert forall|i: int| 0 <= i < b.len() implies ascii_ci_eq_char(#[trigger] b[i], a[i]) by {
            assert(ascii_ci_eq_char(a[i], b[i]));
        }
    }
}

proof fn lemma_trimmed_ci(a: Seq<char>, b: Seq<char>)
    requires
        ascii_ci_eq(a, b),
    ensures
        ascii_ci_eq(trimmed(a), trimmed(b)),
    decreases a.len(),
{
    if a.len() > 0 {
        assert(ascii_ci_eq_char(a[0], b[0]));
        assert(ascii_ci_eq_char(a[a.len() - 1], b[b.len() - 1]));
        assert(is_white_space(a[0]) == is_white_space(b[0]));
        assert(is_white_space(a.last()) == is_white_space(b.last()));
        if is_white_space(a[0]) {
            assert(ascii_ci_eq(a.drop_first(), b.drop_first())) by {
                assert forall|i: int| 0 <= i < a.len() - 1 implies ascii_ci_eq_char(
                    #[trigger] a.drop_first()[i],
                    b.drop_first()[i],
                ) by {
                    assert(ascii_ci_eq_char(a[i + 1], b[i + 1]));
                }
            }
            lemma_trimmed_ci(a.drop_first(), b.drop_first());
        } else if is_white_space(a.last()) {
            assert(ascii_ci_eq(a.drop_last(), b.drop_last())) by {
                assert forall|i: int| 0 <= i < a.len() - 1 implies ascii_ci_eq_char(
                    #[trigger] a.drop_last()[i],
                    b.drop_last()[i],
                ) by {
                    assert(ascii_ci_eq_char(a[i], b[i]));
                }
            }
            lemma_trimmed_ci(a.drop_last(), b.drop_last());
        }
    }
}

proof fn lemma_first_loose_matches(table: Seq<Writing>, t: Seq<char>, i: int)
    requires
        0 <= i,
        first_loose(table, t, i) < table.len(),
    ensures
        loose_match(table[first_loose(table, t, i)], t),
    decreases table.len() - i,
{
    if i < table.len() && !loose_match(table[i], t) {
        lemma_first_loose_matches(table, t, i + 1);
    }
}

proof fn lemma_first_exact_matches(table: Seq<Writing>, t: Seq<char>, i: int)
    requires
        0 <= i,
        first_exact(table, t, i) < table.len(),
    ensures
        exact_match(table[first_exact(table, t, i)], t),
    decreases table.len() - i,
{
    if i < table.len() && !exact_match(table[i], t) {
        lemma_first_exact_matches(table, t, i + 1);
    }
}

/// With distinct stems, the writing at `k` is the only one whose stem
/// matches `t` up to ASCII case.
proof fn lemma_only_match(table: Seq<Writing>, t: Seq<char>, k: int, j: int)
    requires
        stems_distinct(table),
        0 <= k < table.len(),
        0 <= j < table.len(),
        loose_match(table[k], t),
        loose_match(table[j], t),
    ensures
        j == k,
{
    lemma_ci_eq_equiv(table[j].stem@, t, table[k].stem@);
    lemma_ci_eq_equiv(table[k].stem@, t, t);
    if j != k {
        assert(!ascii_ci_eq(table[j].stem@, table[k].stem@));
    }
}

proof fn lemma_first_loose_is(table: Seq<Writing>, t: Seq<char>, k: int, i: int)
    requires
        stems_distinct(table),
        0 <= i <= k < table.len(),
        loose_match(table[k], t),
    ensures
        first_loose(table, t, i) == k,
    decreases k - i,
{
    if i < k {
        if loose_match(table[i], t) {
            lemma_only_match(table, t, k, i);
        }
        lemma_first_loose_is(table, t, k, i + 1);
    }
}

proof fn lemma_lookup_matches(table: Seq<Writing>, t: Seq<char>)
    requires
        lookup_index(table, t) < table.len(),
    ensures
        loose_match(table[lookup_index(table, t)], t),
{
    lemma_first_exact_bound(table, t, 0);
    lemma_first_loose_bound(table, t, 0);
    let e = first_exact(table, t, 0);
    if e < table.len() {
        lemma_first_exact_matches(table, t, 0);
        lemma_ci_eq_equiv(t, t, t);
    } else {
        lemma_first_loose_matches(table, t, 0);
    }
}

proof fn lemma_lookup_is(table: Seq<Writing>, t: Seq<char>, k: int)
    requires
        stems_distinct(table),
        0 <= k < table.len(),
        loose_match(table[k], t),
    ensures
        lookup_index(table, t) == k,
{
    lemma_first_exact_bound(table, t, 0);
    let e = first_exact(table, t, 0);
    if e < table.len() {
        lemma_first_exact_matches(table, t, 0);
        lemma_ci_eq_equiv(t, t, t);
        lemma_only_match(table, t, k, e);
    } else {
        lemma_first_loose_is(table, t, k, 0);
    }
}

/// Lookup ignores ASCII case: two names that agree up to ASCII case (such as
/// a name, its upper-case and its lower-case form) are both rejected as
/// empty, or both find the same text, or both find none, provided no two
/// stored stems agree up to ASCII case.
pub proof fn lemma_lookup_ignores_case(table: Seq<Writing>, n1: Seq<char>, n2: Seq<char>)
    requires
        stems_distinct(table),
        ascii_ci_eq(n1, n2),
    ensures
        trimmed(n1).len() == trimmed(n2).len(),
        lookup_index(table, trimmed(n1)) == lookup_index(table, trimmed(n2)),
{
    let t1 = trimmed(n1);
    let t2 = trimmed(n2);
    lemma_trimmed_ci(n1, n2);
    lemma_ci_eq_equiv(t1, t2, t2);
    lemma_first_exact_bound(table, t1, 0);
    lemma_first_loose_bound(table, t1, 0);
    lemma_first_exact_bound(table, t2, 0);
    lemma_first_loose_bound(table, t2, 0);
    let k1 = lookup_index(table, t1);
    let k2 = lookup_index(table, t2);
    if k1 < table.len() {
        lemma_lookup_matches(table, t1);
        lemma_ci_eq_equiv(table[k1].stem@, t1, t2);
        lemma_lookup_is(table, t2, k1);
    } else if k2 < table.len() {
        lemma_lookup_matches(table, t2);
        lemma_ci_eq_equiv(table[k2].stem@, t2, t1);
        lemma_lookup_is(table, t1, k2);
    }
}

} // verus!

verus! {

/// `a` comes no later than `b` in the order of `String`: character codes
/// compared one by one, a prefix first.
pub open spec fn lex_le(a: Seq<char>, b: Seq<char>) -> bool
    decreases a.len(),
{
    if a.len() == 0 {
        true
    } else if b.len() == 0 {
        false
    } else if a[0] as u32 != b[0] as u32 {
        (a[0] as u32) < (b[0] as u32)
    } else {
        lex_le(a.drop_first(), b.drop_first())
    }
}

pub open spec fn lex_sorted(v: Seq<Seq<char>>) -> bool {
    forall|i: int, j: int| 0 <= i < j < v.len() ==> lex_le(#[trigger] v[i], #[trigger] v[j])
}

pub open spec fn stem_views(table: Seq<Writing>) -> Seq<Seq<char>> {
    table.map_values(|w: Writing| w.stem@)
}

pub open spec fn name_views(names: Seq<String>) -> Seq<Seq<char>> {
    names.map_values(|s: String| s@)
}

proof fn lemma_lex_total(a: Seq<char>, b: Seq<char>)
    ensures
        lex_le(a, b) || lex_le(b, a),
    decreases a.len(),
{
    if a.len() > 0 && b.len() > 0 && a[0] as u32 == b[0] as u32 {
        lemma_lex_total(a.drop_first(), b.drop_first());
    }
}

proof fn lemma_lex_trans(a: Seq<char>, b: Seq<char>, c: Seq<char>)
    requires
        lex_le(a, b),
        lex_le(b, c),
    ensures
        lex_le(a, c),
    decreases a.len(),
{
    if a.len() > 0 && b.len() > 0 && c.len() > 0 && a[0] as u32 == b[0] as u32 && b[0] as u32
        == c[0] as u32 {
        lemma_lex_trans(a.drop_first(), b.drop_first(), c.drop_first());
    }
}

fn lex_le_exec(a: &Vec<char>, b: &Vec<char>) -> (r: bool)
    ensures
        r == lex_le(a@, b@),
{
    let mut i: usize = 0;
    assert(a@.skip(0) =~= a@);
    assert(b@.skip(0) =~= b@);
    loop
        invariant
            i <= a@.len(),
            i <= b@.len(),
            lex_le(a@, b@) == lex_le(a@.skip(i as int), b@.skip(i as int)),
        decreases a@.len() - i,
    {
        if i == a.len() {
            return true;
        }
        if i == b.len() {
            return false;
        }
        if a[i] as u32 != b[i] as u32 {
            return (a[i] as u32) < (b[i] as u32);
        }
        assert(a@.skip(i as int).drop_first() =~= a@.skip(i + 1));
        assert(b@.skip(i as int).drop_first() =~= b@.skip(i + 1));
        i = i + 1;
    }
}

/// The stems of all stored texts, in the order of `String`.
pub fn writing_names(table: &Vec<Writing>) -> (r: Vec<String>)
    ensures
        name_views(r@).to_multiset() == stem_views(table@).to_multiset(),
        lex_sorted(name_views(r@)),
{
    let mut r: Vec<String> = Vec::new();
    let mut i: usize = 0;
    assert(name_views(r@) =~= stem_views(table@.take(0)));
    while i < table.len()
        invariant
            i <= table@.len(),
            lex_sorted(name_views(r@)),
            name_views(r@).to_multiset() == stem_views(table@.take(i as int)).to_multiset(),
        decreases table@.len() - i,
    {
        let s = table[i].stem.clone();
        let sc = chars_of(s.as_str());
        let mut p: usize = 0;
        while p < r.len() && lex_le_exec(&chars_of(r[p].as_str()), &sc)
            invariant
                p <= r@.len(),
                sc@ == s@,
                forall|k: int| 0 <= k < p ==> lex_le(#[trigger] r@[k]@, s@),
            decreases r@.len() - p,
        {
            p = p + 1;
        }
        let ghost old_v = name_views(r@);
        proof {
            if p < r@.len() {
                lemma_lex_total(s@, r@[p as int]@);
            }
        }
        r.insert(p, s);
        let ghost v = name_views(r@);
        assert(v =~= old_v.insert(p as int, s@));
        assert(lex_sorted(v)) by {
            assert forall|x: int, y: int| 0 <= x < y < v.len() implies lex_le(
                #[trigger] v[x],
                #[trigger] v[y],
            ) by {
                if y < p {
                    assert(lex_le(old_v[x], old_v[y]));
                } else if y == p {
                    assert(lex_le(old_v[x], s@));
                } else if x < p {
                    assert(lex_le(old_v[x], s@));
                    assert(lex_le(s@, old_v[p as int]));
                    if y - 1 > p {
                        assert(lex_le(old_v[p as int], old_v[y - 1]));
                        lemma_lex_trans(s@, old_v[p as int], old_v[y - 1]);
                    }
                    lemma_lex_trans(old_v[x], s@, old_v[y - 1]);
                } else if x == p {
                    assert(lex_le(s@, old_v[p as int]));
                    if y - 1 > p {
                        assert(lex_le(old_v[p as int], old_v[y - 1]));
                        lemma_lex_trans(s@, old_v[p as int], old_v[y - 1]);
                    }
                } else {
                    assert(lex_le(old_v[x - 1], old_v[y - 1]));
                }
            }
        }
        proof {
            vstd::seq_lib::to_multiset_insert(old_v, p as int, s@);
            vstd::seq_lib::to_multiset_build(stem_views(table@.take(i as int)), s@);
            assert(stem_views(table@.take(i + 1)) =~= stem_views(table@.take(i as int)).push(s@));
        }
        i = i + 1;
    }
    assert(table@.take(i as int) =~= table@);
    r
}

} // verus!
