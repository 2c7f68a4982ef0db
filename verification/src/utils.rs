//! Path helpers and the similarity ranker that reorders a finished result
//! collection by closeness of each file name to a query.

use vstd::multiset::Multiset;
use vstd::prelude::*;
use vstd::string::StrSliceExecFns;

verus! {

broadcast use vstd::seq_lib::group_to_multiset_ensures;

/// A path with a leading home-directory marker expanded: `~` alone becomes
/// the home directory, `~/rest` becomes the home directory followed by
/// `/rest`; any other path, or any path when no home directory is known, is
/// kept as given.
pub open spec fn expand_tilde_spec(path: Seq<char>, home: Option<Seq<char>>) -> Seq<char> {
    if home is Some && path.len() >= 1 && path[0] == '~' && (path.len() == 1 || path[1] == '/') {
        home->0 + path.subrange(1, path.len() as int)
    } else {
        path
    }
}

/// Whether a stored path is the tilde expansion of an original path against
/// some home-directory outcome: the home directory is whatever the platform
/// answered at the time, so only its existence is stated.
pub open spec fn is_expansion_of(stored: Seq<char>, original: Seq<char>) -> bool {
    exists|home: Option<Seq<char>>| stored == expand_tilde_spec(original, home)
}

/// The platform's home directory as text, if it can be resolved.
/// Relies on `dirs::home_dir`; a home path that is not valid Unicode counts
/// as unresolved.
#[verifier::external_body]
fn home_dir_text() -> Option<String> {
    dirs::home_dir().and_then(|p| p.to_str().map(str::to_owned))
}

/// Expands a leading home-directory marker against a given home directory.
fn expand_tilde(path: &str, home: Option<String>) -> (r: String)
    ensures
        r@ == expand_tilde_spec(path@, home.deep_view()),
{
    let n = path.unicode_len();
    match home {
        Some(h) => {
            if n >= 1 && path.get_char(0) == '~' && (n == 1 || path.get_char(1) == '/') {
                let mut s = h;
                let rest = path.substring_char(1, n);
                s.append(rest);
                s
            } else {
                path.to_owned()
            }
        },
        None => path.to_owned(),
    }
}

/// Expands a leading home-directory marker, falling back to the path as
/// given when the home directory cannot be resolved.
pub fn replace_tilde_with_home_dir(path: &str) -> (r: String)
    ensures
        is_expansion_of(r@, path@),
        path@.len() == 0 || path@[0] != '~' ==> r@ == path@,
{
    let home = home_dir_text();
    let ghost home_view = home.deep_view();
    let r = expand_tilde(path, home);
    proof {
        assert(r@ == expand_tilde_spec(path@, home_view));
    }
    r
}

/// The final path component: everything after the last `/`, the whole text
/// when it has no `/`, and empty for text ending in `/`.
pub open spec fn file_name_spec(p: Seq<char>) -> Seq<char>
    decreases p.len(),
{
    if p.len() == 0 {
        p
    } else if p[p.len() - 1] == '/' {
        Seq::empty()
    } else {
        file_name_spec(p.drop_last()).push(p[p.len() - 1])
    }
}

/// The final path component of a path string. The function is total: where
/// the platform's path API has no component to give (an empty path, a path
/// ending in a separator, or one ending in `..`), it yields the text after
/// the last separator — possibly empty — rather than failing.
pub fn file_name_from_path(path: &str) -> (r: String)
    ensures
        r@ == file_name_spec(path@),
{
    let n = path.unicode_len();
    let mut start: usize = 0;
    let mut i: usize = 0;
    while i < n
        invariant
            n == path@.len(),
            i <= n,
            start <= i,
            file_name_spec(path@.subrange(0, i as int)) == path@.subrange(start as int, i as int),
        decreases n - i,
    {
        proof {
            assert(path@.subrange(0, i + 1).drop_last() =~= path@.subrange(0, i as int));
            assert(path@.subrange(0, i + 1).last() == path@[i as int]);
        }
        if path.get_char(i) == '/' {
            start = i + 1;
            proof {
                assert(file_name_spec(path@.subrange(0, i + 1)) =~= path@.subrange(
                    i + 1,
                    i + 1,
                ));
            }
        } else {
            proof {
                assert(file_name_spec(path@.subrange(0, i + 1)) =~= path@.subrange(
                    start as int,
                    i + 1,
                ));
            }
        }
        i += 1;
    }
    proof {
        assert(path@.subrange(0, n as int) =~= path@);
    }
    let r = path.substring_char(start, n);
    r.to_owned()
}

/// What the case-folding collaborator returns for a string.
pub uninterp spec fn lower_of(s: Seq<char>) -> Seq<char>;

/// Lowercases a string.
/// Relies on `str::to_lowercase`: the result depends on the characters alone.
#[verifier::external_body]
fn lowercase(s: &str) -> (r: String)
    ensures
        r@ == lower_of(s@),
{
    s.to_lowercase()
}

/// What the similarity collaborator scores for a pair of strings, as an
/// order-preserving image of the score.
pub uninterp spec fn sim_score(a: Seq<char>, q: Seq<char>) -> u64;

/// Scores the similarity of two strings.
/// Relies on `strsim::jaro_winkler`: the score depends on the two strings
/// alone and lies in [0, 1], so comparing the bit images of two scores
/// compares the scores themselves.
#[verifier::external_body]
fn similarity_key(a: &str, q: &str) -> (r: u64)
    ensures
        r == sim_score(a@, q@),
{
    strsim::jaro_winkler(a, q).to_bits()
}

/// How a path ranks against a query: the similarity of its lowercased file
/// name to the lowercased query.
pub open spec fn rank_of(path: Seq<char>, query: Seq<char>) -> u64 {
    sim_score(lower_of(file_name_spec(path)), lower_of(query))
}

/// The rank of one path against an already lowercased query.
fn rank_key(path: &String, query_lower: &String, Ghost(query): Ghost<Seq<char>>) -> (r: u64)
    requires
        query_lower@ == lower_of(query),
    ensures
        r == rank_of(path@, query),
{
    let name = file_name_from_path(path.as_str());
    let folded = lowercase(name.as_str());
    similarity_key(folded.as_str(), query_lower.as_str())
}

/// Whether `after` rearranges `before` through the index map `f` — every
/// element of `after` is the element of `before` at its mapped index, no
/// index is used twice — and paths of equal rank under `query` keep their
/// prior relative order (the sort is stable).
pub open spec fn reorders_stably(
    before: Seq<String>,
    after: Seq<String>,
    query: Seq<char>,
    f: Seq<int>,
) -> bool {
    &&& f.len() == after.len()
    &&& after.len() == before.len()
    &&& (forall|k: int|
        0 <= k < f.len() ==> 0 <= #[trigger] f[k] < before.len() && after[k] == before[f[k]])
    &&& (forall|a: int, b: int|
        0 <= a < b < f.len() ==> #[trigger] f[a] != #[trigger] f[b])
    &&& (forall|a: int, b: int|
        0 <= a < b < f.len() && rank_of(after[a]@, query) == rank_of(after[b]@, query)
            ==> #[trigger] f[a] < #[trigger] f[b])
}

/// Reorders the collection in place, descending by similarity of each path's
/// file name to the query, both lowercased before scoring; the collection
/// keeps exactly the same paths, and ties keep their prior relative order
/// (the reordering is stable).
pub fn similarity_sort(paths: &mut Vec<String>, input: &str)
    ensures
        final(paths)@.to_multiset() == old(paths)@.to_multiset(),
        final(paths)@.len() == old(paths)@.len(),
        forall|a: int, b: int|
            0 <= a < b < final(paths)@.len() ==> rank_of(final(paths)@[a]@, input@) >= rank_of(
                final(paths)@[b]@,
                input@,
            ),
        exists|f: Seq<int>| reorders_stably(old(paths)@, final(paths)@, input@, f),
{
    let query_lower = lowercase(input);
    let mut keys: Vec<u64> = Vec::new();
    let mut i: usize = 0;
    while i < paths.len()
        invariant
            query_lower@ == lower_of(input@),
            i <= paths@.len(),
            keys@.len() == i,
            paths@ == old(paths)@,
            forall|j: int| 0 <= j < i ==> keys@[j] == rank_of(paths@[j]@, input@),
        decreases paths@.len() - i,
    {
        let k = rank_key(&paths[i], &query_lower, Ghost(input@));
        keys.push(k);
        i += 1;
    }
    let mut sorted: Vec<String> = Vec::new();
    let ghost total = old(paths)@.len() as int;
    let ghost mut rest_idx: Seq<int> = Seq::new(old(paths)@.len(), |k: int| k);
    let ghost mut picked_idx: Seq<int> = Seq::empty();
    while paths.len() > 0
        invariant
            keys@.len() == paths@.len(),
            forall|j: int| 0 <= j < paths@.len() ==> keys@[j] == rank_of(paths@[j]@, input@),
            sorted@.to_multiset().add(paths@.to_multiset()) =~= old(paths)@.to_multiset(),
            sorted@.len() + paths@.len() == old(paths)@.len(),
            rest_idx.len() == paths@.len(),
            picked_idx.len() == sorted@.len(),
            forall|k: int|
                0 <= k < paths@.len() ==> 0 <= #[trigger] rest_idx[k] < total && paths@[k] == old(
                    paths,
                )@[rest_idx[k]],
            forall|k: int|
                0 <= k < sorted@.len() ==> 0 <= #[trigger] picked_idx[k] < total && sorted@[k]
                    == old(paths)@[picked_idx[k]],
            forall|a: int, b: int|
                0 <= a < b < rest_idx.len() ==> #[trigger] rest_idx[a] < #[trigger] rest_idx[b],
            forall|a: int, b: int|
                0 <= a < b < picked_idx.len() ==> #[trigger] picked_idx[a]
                    != #[trigger] picked_idx[b],
            forall|a: int, k: int|
                0 <= a < picked_idx.len() && 0 <= k < rest_idx.len() ==> #[trigger] picked_idx[a]
                    != #[trigger] rest_idx[k],
            forall|a: int, b: int|
                0 <= a < b < sorted@.len() ==> rank_of(sorted@[a]@, input@) >= rank_of(
                    sorted@[b]@,
                    input@,
                ),
            forall|a: int, b: int|
                0 <= a < sorted@.len() && 0 <= b < paths@.len() ==> rank_of(sorted@[a]@, input@)
                    >= rank_of(paths@[b]@, input@),
            forall|a: int, b: int|
                0 <= a < b < picked_idx.len() && rank_of(sorted@[a]@, input@) == rank_of(
                    sorted@[b]@,
                    input@,
                ) ==> #[trigger] picked_idx[a] < #[trigger] picked_idx[b],
            forall|a: int, k: int|
                0 <= a < picked_idx.len() && 0 <= k < rest_idx.len() && rank_of(
                    sorted@[a]@,
                    input@,
                ) == rank_of(paths@[k]@, input@) ==> #[trigger] picked_idx[a]
                    < #[trigger] rest_idx[k],
        decreases paths@.len(),
    {
        let mut best: usize = 0;
        let mut t: usize = 1;
        while t < paths.len()
            invariant
                paths@.len() > 0,
                best < t,
                t <= paths@.len(),
                forall|j: int| 0 <= j < t ==> keys@[best as int] >= keys@[j],
                forall|j: int| 0 <= j < best ==> keys@[j] < keys@[best as int],
                keys@.len() == paths@.len(),
            decreases paths@.len() - t,
        {
            if keys[t] > keys[best] {
                best = t;
            }
            t += 1;
        }
        let ghost prior_paths = paths@;
        let ghost prior_sorted = sorted@;
        let ghost prior_keys = keys@;
        let ghost prior_rest = rest_idx;
        let ghost prior_picked = picked_idx;
        let picked = paths.remove(best);
        keys.remove(best);
        sorted.push(picked);
        proof {
            picked_idx = picked_idx.push(prior_rest[best as int]);
            rest_idx = rest_idx.remove(best as int);
        }
        proof {
            assert(prior_paths.contains(prior_paths[best as int]));
            assert(prior_paths.to_multiset().count(prior_paths[best as int]) > 0);
            assert(sorted@.to_multiset().add(paths@.to_multiset()) =~= prior_sorted.to_multiset()
                .add(prior_paths.to_multiset())) by {
                assert(sorted@.to_multiset() =~= prior_sorted.to_multiset().insert(
                    prior_paths[best as int],
                ));
                assert(paths@.to_multiset() =~= prior_paths.to_multiset().remove(
                    prior_paths[best as int],
                ));
            }
            assert forall|j: int| 0 <= j < paths@.len() implies keys@[j] == rank_of(
                paths@[j]@,
                input@,
            ) by {
                if j < best {
                    assert(paths@[j] == prior_paths[j]);
                    assert(keys@[j] == prior_keys[j]);
                } else {
                    assert(paths@[j] == prior_paths[j + 1]);
                    assert(keys@[j] == prior_keys[j + 1]);
                }
            }
            assert forall|a: int, b: int|
                0 <= a < sorted@.len() && 0 <= b < paths@.len() implies rank_of(
                sorted@[a]@,
                input@,
            ) >= rank_of(paths@[b]@, input@) by {
                let witness = if b < best {
                    b
                } else {
                    b + 1
                };
                assert(paths@[b] == prior_paths[witness]);
                if a < prior_sorted.len() {
                    assert(sorted@[a] == prior_sorted[a]);
                } else {
                    assert(sorted@[a] == prior_paths[best as int]);
                    assert(prior_keys[best as int] >= prior_keys[witness]);
                }
            }
            assert forall|a: int, b: int|
                0 <= a < b < sorted@.len() implies rank_of(sorted@[a]@, input@) >= rank_of(
                sorted@[b]@,
                input@,
            ) by {
                assert(sorted@[a] == prior_sorted[a]);
                if b < prior_sorted.len() {
                    assert(sorted@[b] == prior_sorted[b]);
                } else {
                    assert(sorted@[b] == prior_paths[best as int]);
                }
            }
            assert forall|k: int| 0 <= k < paths@.len() implies 0 <= #[trigger] rest_idx[k]
                < total && paths@[k] == old(paths)@[rest_idx[k]] by {
                if k < best {
                    assert(paths@[k] == prior_paths[k]);
                    assert(rest_idx[k] == prior_rest[k]);
                } else {
                    assert(paths@[k] == prior_paths[k + 1]);
                    assert(rest_idx[k] == prior_rest[k + 1]);
                }
            }
            assert forall|a: int, b: int|
                0 <= a < b < rest_idx.len() implies #[trigger] rest_idx[a]
                < #[trigger] rest_idx[b] by {
                let aw = if a < best {
                    a
                } else {
                    a + 1
                };
                let bw = if b < best {
                    b
                } else {
                    b + 1
                };
                assert(rest_idx[a] == prior_rest[aw]);
                assert(rest_idx[b] == prior_rest[bw]);
            }
            assert forall|a: int, k: int|
                0 <= a < picked_idx.len() && 0 <= k < rest_idx.len() implies
                #[trigger] picked_idx[a] != #[trigger] rest_idx[k] by {
                let kw = if k < best {
                    k
                } else {
                    k + 1
                };
                assert(rest_idx[k] == prior_rest[kw]);
                if a < prior_picked.len() {
                    assert(picked_idx[a] == prior_picked[a]);
                } else {
                    assert(picked_idx[a] == prior_rest[best as int]);
                    assert(prior_rest[best as int] != prior_rest[kw]);
                }
            }
            assert forall|a: int, b: int|
                0 <= a < b < picked_idx.len() implies #[trigger] picked_idx[a]
                != #[trigger] picked_idx[b] by {
                assert(picked_idx[a] == prior_picked[a]);
                if b < prior_picked.len() {
                    assert(picked_idx[b] == prior_picked[b]);
                } else {
                    assert(picked_idx[b] == prior_rest[best as int]);
                    assert(prior_picked[a] != prior_rest[best as int]);
                }
            }
            assert forall|a: int, b: int|
                0 <= a < b < picked_idx.len() && rank_of(sorted@[a]@, input@) == rank_of(
                    sorted@[b]@,
                    input@,
                ) implies #[trigger] picked_idx[a] < #[trigger] picked_idx[b] by {
                assert(sorted@[a] == prior_sorted[a]);
                assert(picked_idx[a] == prior_picked[a]);
                if b < prior_picked.len() {
                    assert(sorted@[b] == prior_sorted[b]);
                    assert(picked_idx[b] == prior_picked[b]);
                } else {
                    assert(sorted@[b] == prior_paths[best as int]);
                    assert(picked_idx[b] == prior_rest[best as int]);
                    assert(prior_picked[a] < prior_rest[best as int]);
                }
            }
            assert forall|a: int, k: int|
                0 <= a < picked_idx.len() && 0 <= k < rest_idx.len() && rank_of(
                    sorted@[a]@,
                    input@,
                ) == rank_of(paths@[k]@, input@) implies #[trigger] picked_idx[a]
                < #[trigger] rest_idx[k] by {
                let kw = if k < best {
                    k
                } else {
                    k + 1
                };
                assert(paths@[k] == prior_paths[kw]);
                assert(rest_idx[k] == prior_rest[kw]);
                if a < prior_picked.len() {
                    assert(sorted@[a] == prior_sorted[a]);
                    assert(picked_idx[a] == prior_picked[a]);
                } else {
                    assert(sorted@[a] == prior_paths[best as int]);
                    assert(picked_idx[a] == prior_rest[best as int]);
                    assert(prior_keys[kw] == rank_of(prior_paths[kw]@, input@));
                    assert(prior_keys[best as int] == rank_of(prior_paths[best as int]@, input@));
                    if kw < best {
                        assert(prior_keys[kw] < prior_keys[best as int]);
                        assert(false);
                    }
                    assert(prior_rest[best as int] < prior_rest[kw]);
                }
            }
        }
    }
    proof {
        assert(paths@.to_multiset() =~= Multiset::empty());
        assert(sorted@.to_multiset() =~= old(paths)@.to_multiset());
        assert(reorders_stably(old(paths)@, sorted@, input@, picked_idx));
    }
    *paths = sorted;
}

} // verus!
