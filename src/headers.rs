use vstd::prelude::*;
use http::header::{HeaderMap, HeaderName, HeaderValue};

verus! {

#[verifier::external_type_specification]
#[verifier::external_body]
#[verifier::reject_recursive_types(T)]
pub struct ExHeaderMap<T>(HeaderMap<T>);

#[verifier::external_type_specification]
#[verifier::external_body]
pub struct ExHeaderValue(HeaderValue);

/// The abstract contents of a header map: each header name, as its canonical
/// lower-case text, mapped to its values in the order they were added.
pub uninterp spec fn header_entries(m: HeaderMap) -> Map<Seq<char>, Seq<HeaderValue>>;

/// A name-value pair as a consuming walk over a header map hands it out: the
/// name is present on the first value of each name and absent on the values
/// that follow it under the same name.
pub type HeaderPair = (Option<String>, HeaderValue);

/// The name of the group that the pair at index `i` belongs to: the nearest
/// name at or before `i`.
pub open spec fn group_name(p: Seq<(Option<Seq<char>>, HeaderValue)>, i: int) -> Option<Seq<char>>
    decreases i + 1,
{
    if i < 0 || i >= p.len() {
        None
    } else if p[i].0 is Some {
        p[i].0
    } else {
        group_name(p, i - 1)
    }
}

/// The header contents described by the first `n` pairs of `p`.
pub open spec fn grouped(p: Seq<(Option<Seq<char>>, HeaderValue)>, n: int) -> Map<Seq<char>, Seq<HeaderValue>>
    decreases n,
{
    if n <= 0 || n > p.len() {
        Map::empty()
    } else {
        let m = grouped(p, n - 1);
        match group_name(p, n - 1) {
            Some(k) => if p[n - 1].0 is Some || !m.contains_key(k) {
                m.insert(k, seq![p[n - 1].1])
            } else {
                m.insert(k, m[k].push(p[n - 1].1))
            },
            None => m,
        }
    }
}

/// The pairs with their names viewed as text.
pub open spec fn pairs_view(p: Seq<HeaderPair>) -> Seq<(Option<Seq<char>>, HeaderValue)> {
    p.map_values(|e: HeaderPair| (
        match e.0 {
            Some(s) => Some(s@),
            None => None,
        },
        e.1,
    ))
}


/// Relies on `HeaderMap::into_iter`: it moves every value out, each name once
/// on its first value and `None` on the values after it under the same name.
#[verifier::external_body]
fn into_pairs(m: HeaderMap) -> (r: Vec<HeaderPair>)
    ensures
        r@.len() > 0 ==> r@[0].0 is Some,
        grouped(pairs_view(r@), r@.len() as int) == header_entries(m),
{
    m.into_iter().map(|(k, v)| (k.map(|k| k.as_str().to_string()), v)).collect()
}

/// The most distinct names a header map may hold before an insertion. Below
/// it, an insertion never asks the map's index table to grow past its largest
/// size, which is what makes `HeaderMap::insert` and `HeaderMap::append`
/// panic.
pub const HEADER_NAME_LIMIT: usize = 6553;

/// `s` is the text of a header name: some header map has it as a key.
pub open spec fn is_header_name(s: Seq<char>) -> bool {
    exists|m: HeaderMap| #[trigger] header_entries(m).contains_key(s)
}

/// The headers after merging `src` into `dst`: every name of `src` carries
/// exactly its values from `src`; every other name of `dst` is kept as it was.
pub open spec fn merged(
    dst: Map<Seq<char>, Seq<HeaderValue>>,
    src: Map<Seq<char>, Seq<HeaderValue>>,
) -> Map<Seq<char>, Seq<HeaderValue>> {
    dst.union_prefer_right(src)
}

/// After a merge, a name that the merged headers carry has exactly their
/// values, and any other name keeps what the target had under it.
pub proof fn lemma_merge_per_name(
    dst: Map<Seq<char>, Seq<HeaderValue>>,
    src: Map<Seq<char>, Seq<HeaderValue>>,
    name: Seq<char>,
)
    ensures
        src.contains_key(name) ==> merged(dst, src).contains_key(name) && merged(dst, src)[name]
            == src[name],
        !src.contains_key(name) ==> (merged(dst, src).contains_key(name) == dst.contains_key(name)),
        !src.contains_key(name) && dst.contains_key(name) ==> merged(dst, src)[name] == dst[name],
{
}

/// The names after a merge are those of the target together with those of
/// the merged headers.
pub proof fn lemma_merge_names(
    dst: Map<Seq<char>, Seq<HeaderValue>>,
    src: Map<Seq<char>, Seq<HeaderValue>>,
)
    ensures
        merged(dst, src).dom() == dst.dom().union(src.dom()),
{
    assert(merged(dst, src).dom() =~= dst.dom().union(src.dom()));
}

/// Merging the same headers a second time changes nothing.
pub proof fn lemma_merge_idempotent(
    dst: Map<Seq<char>, Seq<HeaderValue>>,
    src: Map<Seq<char>, Seq<HeaderValue>>,
)
    ensures
        merged(merged(dst, src), src) == merged(dst, src),
{
    assert(merged(merged(dst, src), src) =~= merged(dst, src));
}

/// Merging no headers leaves the target as it was.
pub proof fn lemma_merge_empty(dst: Map<Seq<char>, Seq<HeaderValue>>)
    ensures
        merged(dst, Map::empty()) == dst,
{
    assert(merged(dst, Map::empty()) =~= dst);
}

/// The texts of a list of names.
pub open spec fn names_view(names: Seq<String>) -> Seq<Seq<char>> {
    names.map_values(|s: String| s@)
}

/// Relies on `HeaderMap::keys`: each distinct name of the map, once.
#[verifier::external_body]
fn header_names(m: &HeaderMap) -> (r: Vec<String>)
    ensures
        names_view(r@).no_duplicates(),
        names_view(r@).to_set() == header_entries(*m).dom(),
{
    m.keys().map(|k| k.as_str().to_string()).collect()
}

/// The number of distinct names in `m`.
pub fn name_count(m: &HeaderMap) -> (r: usize)
    ensures
        header_entries(*m).dom().finite(),
        r == header_entries(*m).dom().len(),
{
    let names = header_names(m);
    proof {
        names_view(names@).unique_seq_to_set();
    }
    names.len()
}

/// Relies on `HeaderMap::insert`: the values under the name become `value`
/// alone, and other names are untouched.
#[verifier::external_body]
fn insert_header(m: &mut HeaderMap, name: &String, value: HeaderValue)
    requires
        is_header_name(name@),
        header_entries(*old(m)).dom().finite(),
        header_entries(*old(m)).dom().len() <= HEADER_NAME_LIMIT,
    ensures
        header_entries(*final(m)) == header_entries(*old(m)).insert(name@, seq![value]),
{
    if let Ok(key) = HeaderName::from_bytes(name.as_bytes()) {
        m.insert(key, value);
    }
}

/// Relies on `HeaderMap::append`: `value` goes after the values already
/// under the name, and other names are untouched.
#[verifier::external_body]
fn append_header(m: &mut HeaderMap, name: &String, value: HeaderValue)
    requires
        is_header_name(name@),
        header_entries(*old(m)).dom().finite(),
        header_entries(*old(m)).dom().len() <= HEADER_NAME_LIMIT,
    ensures
        header_entries(*final(m)) == header_entries(*old(m)).insert(
            name@,
            if header_entries(*old(m)).contains_key(name@) {
                header_entries(*old(m))[name@].push(value)
            } else {
                seq![value]
            },
        ),
{
    if let Ok(key) = HeaderName::from_bytes(name.as_bytes()) {
        m.append(key, value);
    }
}

proof fn lemma_grouped_finite(p: Seq<(Option<Seq<char>>, HeaderValue)>, n: int)
    ensures
        grouped(p, n).dom().finite(),
    decreases n,
{
    if 0 < n <= p.len() {
        lemma_grouped_finite(p, n - 1);
    }
}

proof fn lemma_grouped_grows(p: Seq<(Option<Seq<char>>, HeaderValue)>, i: int, n: int)
    requires
        0 <= i <= n <= p.len(),
    ensures
        grouped(p, i).dom().subset_of(grouped(p, n).dom()),
    decreases n - i,
{
    if i < n {
        lemma_grouped_grows(p, i, n - 1);
    }
}

/// Merges `src` into `dst`: for each name in `src`, the values that `dst` had
/// under it are dropped and replaced by all of `src`'s values for it, in
/// order; names that `src` lacks keep their values.
pub fn replace_headers(dst: &mut HeaderMap, src: HeaderMap)
    requires
        header_entries(*old(dst)).dom().finite(),
        merged(header_entries(*old(dst)), header_entries(src)).dom().len() <= HEADER_NAME_LIMIT,
    ensures
        header_entries(*final(dst)) == merged(header_entries(*old(dst)), header_entries(src)),
{
    let ghost d0 = header_entries(*dst);
    let ghost s0 = header_entries(src);
    let ghost whole = src;
    let pairs = into_pairs(src);
    let ghost p = pairs_view(pairs@);
    let ghost n = p.len() as int;
    proof {
        lemma_grouped_finite(p, n);
        assert(merged(d0, s0).dom() == d0.dom().union(s0.dom()));
    }
    let mut current: Option<String> = None;
    for pair in it: pairs
        invariant
            it.seq() == pairs@,
            p == pairs_view(pairs@),
            n == pairs@.len(),
            grouped(p, n) == s0,
            s0 == header_entries(whole),
            pairs@.len() > 0 ==> pairs@[0].0 is Some,
            d0.dom().finite(),
            s0.dom().finite(),
            merged(d0, s0).dom().len() <= HEADER_NAME_LIMIT,
            header_entries(*dst) == merged(d0, grouped(p, it.index() as int)),
            it.index() > 0 ==> current is Some && group_name(p, it.index() - 1) == Some(
                current->0@,
            ),
    {
        let ghost i = it.index() as int;
        proof {
            lemma_grouped_grows(p, i, n);
            lemma_grouped_grows(p, i + 1, n);
            lemma_grouped_finite(p, i);
            let cur = merged(d0, grouped(p, i)).dom();
            assert(cur == d0.dom().union(grouped(p, i).dom()));
            assert(cur.subset_of(merged(d0, s0).dom()));
            assert(merged(d0, s0).dom() == d0.dom().union(s0.dom()));
            vstd::set_lib::lemma_len_subset(cur, merged(d0, s0).dom());
        }
        let (name, value) = pair;
        match name {
            Some(name) => {
                proof {
                    assert(p[i].0 == Some(name@));
                    assert(grouped(p, i + 1).contains_key(name@));
                    assert(s0.contains_key(name@));
                    assert(header_entries(whole).contains_key(name@));
                }
                insert_header(dst, &name, value);
                current = Some(name);
                proof {
                    assert(header_entries(*dst) =~= merged(d0, grouped(p, i + 1)));
                }
            },
            None => {
                match &current {
                    Some(name) => {
                        proof {
                            assert(group_name(p, i) == Some(name@));
                            assert(grouped(p, i).contains_key(name@));
                            assert(grouped(p, i + 1).contains_key(name@));
                            assert(header_entries(whole).contains_key(name@));
                        }
                        append_header(dst, name, value);
                        proof {
                            assert(header_entries(*dst) =~= merged(d0, grouped(p, i + 1)));
                        }
                    },
                    None => {},
                }
            },
        }
    }
}

} // verus!
