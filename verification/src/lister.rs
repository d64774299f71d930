//! Release listing.
//!
//! A package manager records each release in a labelled metadata object
//! stored in the cluster.  The lister reads the name-bearing label of every
//! object handed to it, silently skips objects that lack the label, and
//! returns the distinct names in ascending lexicographic order.

use vstd::prelude::*;
use crate::order::{lex_lt, lemma_lex_connected, lemma_lex_irreflexive, lemma_lex_transitive, str_lt};

verus! {

/// One label of a metadata object: a key/value pair of strings.
pub struct Label {
    pub key: String,
    pub value: String,
}

/// A cluster-stored metadata object, reduced to what the tool reads of it:
/// its labels.
pub struct MetadataObject {
    pub labels: Vec<Label>,
}

/// The value of the first label with the given key, if any.
pub open spec fn label_lookup(ls: Seq<Label>, key: Seq<char>) -> Option<Seq<char>>
    decreases ls.len(),
{
    if ls.len() == 0 {
        None
    } else if ls[0].key@ == key {
        Some(ls[0].value@)
    } else {
        label_lookup(ls.skip(1), key)
    }
}

/// The release name recorded on a metadata object: the value of its
/// name label, if the object carries one.
pub open spec fn release_name_of(o: MetadataObject) -> Option<Seq<char>> {
    label_lookup(o.labels@, "name"@)
}

/// Whether some object in the collection records the release name `n`.
pub open spec fn has_release_name(objs: Seq<MetadataObject>, n: Seq<char>) -> bool {
    exists|i: int| 0 <= i < objs.len() && release_name_of(objs[i]) == Some(n)
}

/// Strictly ascending in the lexicographic order; implies that all entries
/// are distinct.
pub open spec fn strictly_sorted(s: Seq<Seq<char>>) -> bool {
    forall|i: int, j: int| 0 <= i < j < s.len() ==> lex_lt(s[i], s[j])
}

/// `names` is the listing of `objs`: each recorded release name exactly
/// once, in ascending order, and nothing else.
pub open spec fn is_listing_of(objs: Seq<MetadataObject>, names: Seq<Seq<char>>) -> bool {
    &&& strictly_sorted(names)
    &&& forall|n: Seq<char>| #[trigger] names.contains(n) <==> has_release_name(objs, n)
}

/// A strictly sorted listing holds each name at most once: distinct
/// positions hold distinct names.
pub proof fn lemma_listing_has_no_duplicates(names: Seq<Seq<char>>)
    requires
        strictly_sorted(names),
    ensures
        forall|i: int, j: int|
            #![trigger names[i], names[j]]
            0 <= i < names.len() && 0 <= j < names.len() && i != j ==> names[i] != names[j],
{
    assert forall|i: int, j: int|
        #![trigger names[i], names[j]]
        0 <= i < names.len() && 0 <= j < names.len() && i != j implies names[i] != names[j] by {
        if names[i] == names[j] {
            if i < j {
                assert(lex_lt(names[i], names[j]));
            } else {
                assert(lex_lt(names[j], names[i]));
            }
            lemma_lex_irreflexive(names[i]);
        }
    }
}

/// Two strictly sorted sequences with the same members are equal: the
/// listing contract admits exactly one output.
pub proof fn lemma_sorted_same_members_equal(xs: Seq<Seq<char>>, ys: Seq<Seq<char>>)
    requires
        strictly_sorted(xs),
        strictly_sorted(ys),
        forall|n: Seq<char>| #[trigger] xs.contains(n) <==> ys.contains(n),
    ensures
        xs =~= ys,
    decreases xs.len(),
{
    if xs.len() == 0 {
        if ys.len() > 0 {
            assert(ys.contains(ys[0]));
            assert(xs.contains(ys[0]));
        }
    } else if ys.len() == 0 {
        assert(xs.contains(xs[0]));
        assert(ys.contains(xs[0]));
    } else {
        // The heads are equal: each is its sequence's strict minimum.
        assert(xs.contains(xs[0]));
        assert(ys.contains(ys[0]));
        assert(xs.contains(ys[0]));
        assert(ys.contains(xs[0]));
        let k = choose|k: int| 0 <= k < ys.len() && ys[k] == xs[0];
        let m = choose|m: int| 0 <= m < xs.len() && xs[m] == ys[0];
        if k > 0 && m > 0 {
            assert(lex_lt(ys[0], ys[k]));
            assert(lex_lt(xs[0], xs[m]));
            lemma_lex_transitive(xs[0], ys[0], xs[0]);
            lemma_lex_irreflexive(xs[0]);
        }
        assert(xs[0] == ys[0]);
        // The tails are strictly sorted and have the same members.
        let xt = xs.skip(1);
        let yt = ys.skip(1);
        assert forall|i: int, j: int| 0 <= i < j < xt.len() implies lex_lt(xt[i], xt[j]) by {
            assert(xt[i] == xs[i + 1] && xt[j] == xs[j + 1]);
        }
        assert forall|i: int, j: int| 0 <= i < j < yt.len() implies lex_lt(yt[i], yt[j]) by {
            assert(yt[i] == ys[i + 1] && yt[j] == ys[j + 1]);
        }
        assert forall|n: Seq<char>| #[trigger] xt.contains(n) implies yt.contains(n) by {
            let i = choose|i: int| 0 <= i < xt.len() && xt[i] == n;
            assert(xs[i + 1] == n);
            assert(xs.contains(n));
            assert(ys.contains(n));
            let j = choose|j: int| 0 <= j < ys.len() && ys[j] == n;
            assert(lex_lt(xs[0], xs[i + 1]));
            if j == 0 {
                lemma_lex_irreflexive(xs[0]);
            }
            assert(yt[j - 1] == n);
            assert(yt.contains(n));
        }
        assert forall|n: Seq<char>| #[trigger] yt.contains(n) implies xt.contains(n) by {
            let i = choose|i: int| 0 <= i < yt.len() && yt[i] == n;
            assert(ys[i + 1] == n);
            assert(ys.contains(n));
            assert(xs.contains(n));
            let j = choose|j: int| 0 <= j < xs.len() && xs[j] == n;
            assert(lex_lt(ys[0], ys[i + 1]));
            if j == 0 {
                lemma_lex_irreflexive(ys[0]);
            }
            assert(xt[j - 1] == n);
            assert(xt.contains(n));
        }
        lemma_sorted_same_members_equal(xt, yt);
        assert forall|i: int| 0 <= i < xs.len() implies xs[i] == ys[i] by {
            if i > 0 {
                assert(xt[i - 1] == ys[i - 1 + 1]);
            }
        }
    }
}

/// Whether two string slices hold the same characters.
pub fn str_eq(a: &str, b: &str) -> (r: bool)
    ensures
        r == (a@ == b@),
{
    let r = !str_lt(a, b) && !str_lt(b, a);
    proof {
        lemma_lex_connected(a@, b@);
        if a@ == b@ {
            lemma_lex_irreflexive(a@);
        }
    }
    r
}

/// Skipping a non-matching first label does not change the lookup.
proof fn lemma_label_lookup_skip(ls: Seq<Label>, key: Seq<char>, i: int)
    requires
        0 <= i < ls.len(),
        ls[i].key@ != key,
    ensures
        label_lookup(ls.skip(i), key) == label_lookup(ls.skip(i + 1), key),
{
    assert(ls.skip(i)[0] == ls[i]);
    assert(ls.skip(i).skip(1) =~= ls.skip(i + 1));
}

/// The value of the first label with the given key, if any.
pub fn label_value(labels: &Vec<Label>, key: &str) -> (r: Option<String>)
    ensures
        r.deep_view() == label_lookup(labels@, key@),
{
    let mut i: usize = 0;
    proof {
        assert(labels@.skip(0) =~= labels@);
    }
    while i < labels.len()
        invariant
            i <= labels.len(),
            label_lookup(labels@, key@) == label_lookup(labels@.skip(i as int), key@),
        decreases labels.len() - i,
    {
        if str_eq(labels[i].key.as_str(), key) {
            proof {
                assert(labels@.skip(i as int)[0] == labels@[i as int]);
            }
            return Some(labels[i].value.clone());
        }
        proof {
            lemma_label_lookup_skip(labels@, key@, i as int);
        }
        i = i + 1;
    }
    proof {
        assert(labels@.skip(i as int).len() == 0);
    }
    None
}

/// Inserts a name into a strictly sorted vector, keeping it strictly
/// sorted; a name already present is not added again.
pub fn insert_sorted(out: &mut Vec<String>, name: String)
    requires
        strictly_sorted(old(out).deep_view()),
    ensures
        strictly_sorted(final(out).deep_view()),
        forall|n: Seq<char>|
            #[trigger] final(out).deep_view().contains(n) <==> (old(out).deep_view().contains(n)
                || n == name@),
{
    let ghost pre = old(out).deep_view();
    let mut j: usize = 0;
    while j < out.len() && str_lt(out[j].as_str(), name.as_str())
        invariant
            j <= out.len(),
            out.deep_view() == pre,
            strictly_sorted(pre),
            forall|k: int| 0 <= k < j ==> lex_lt(#[trigger] pre[k], name@),
        decreases out.len() - j,
    {
        j = j + 1;
    }
    if j < out.len() && !str_lt(name.as_str(), out[j].as_str()) {
        // The name is already listed at position `j`.
        proof {
            lemma_lex_connected(pre[j as int], name@);
            assert(pre[j as int] == name@);
            assert(out.deep_view().contains(name@));
        }
    } else {
        // Everything before `j` is smaller, everything from `j` on is larger.
        assert(j == out.len() || lex_lt(name@, pre[j as int]));
        out.insert(j, name);
        proof {
            let post = out.deep_view();
            assert(out@ == old(out)@.insert(j as int, name));
            assert(post =~= pre.insert(j as int, name@)) by {
                assert forall|k: int| 0 <= k < post.len() implies post[k] == pre.insert(
                    j as int,
                    name@,
                )[k] by {
                    assert(post[k] == out@[k]@);
                }
            }
            assert forall|x: int, y: int| 0 <= x < y < post.len() implies lex_lt(
                post[x],
                post[y],
            ) by {
                if y < j {
                    assert(post[x] == pre[x] && post[y] == pre[y]);
                } else if x > j {
                    assert(post[x] == pre[x - 1] && post[y] == pre[y - 1]);
                } else if x < j && y == j {
                    assert(post[x] == pre[x] && post[y] == name@);
                } else if x == j {
                    // post[x] == name@, post[y] == pre[y - 1] with j <= y - 1
                    if j < pre.len() && j < y - 1 {
                        lemma_lex_transitive(name@, pre[j as int], pre[y - 1]);
                    }
                } else {
                    // x < j < y: pre[x] < name@ < pre[y - 1] or directly
                    if j < y - 1 {
                        assert(lex_lt(pre[x], pre[y - 1]));
                    } else {
                        assert(lex_lt(pre[x], name@) || lex_lt(pre[x], pre[y - 1]));
                    }
                }
            }
            assert forall|n: Seq<char>| #[trigger] post.contains(n) implies (pre.contains(n) || n
                == name@) by {
                let k = choose|k: int| 0 <= k < post.len() && post[k] == n;
                if k < j {
                    assert(pre[k] == n);
                } else if k > j {
                    assert(pre[k - 1] == n);
                }
            }
            assert forall|n: Seq<char>| pre.contains(n) || n == name@ implies #[trigger] post
                .contains(n) by {
                if pre.contains(n) {
                    let k = choose|k: int| 0 <= k < pre.len() && pre[k] == n;
                    if k < j {
                        assert(post[k] == n);
                    } else {
                        assert(post[k + 1] == n);
                    }
                } else {
                    assert(post[j as int] == name@);
                }
            }
        }
    }
}

/// Lists the distinct release names recorded on the given metadata objects,
/// ascending lexicographically.  Objects without a name label contribute
/// nothing.
pub fn list_releases(objects: &Vec<MetadataObject>) -> (r: Vec<String>)
    ensures
        is_listing_of(objects@, r.deep_view()),
{
    let mut out: Vec<String> = Vec::new();
    let mut i: usize = 0;
    while i < objects.len()
        invariant
            i <= objects.len(),
            strictly_sorted(out.deep_view()),
            forall|n: Seq<char>|
                #[trigger] out.deep_view().contains(n) <==> has_release_name(
                    objects@.take(i as int),
                    n,
                ),
        decreases objects.len() - i,
    {
        let ghost mid = out.deep_view();
        let name_opt = label_value(&objects[i].labels, "name");
        match name_opt {
            Some(v) => {
                proof {
                    assert(release_name_of(objects@[i as int]) == Some(v@));
                }
                insert_sorted(&mut out, v);
            },
            None => {},
        }
        proof {
            let t0 = objects@.take(i as int);
            let t1 = objects@.take(i + 1);
            assert forall|n: Seq<char>|
                has_release_name(t1, n) <==> (has_release_name(t0, n) || release_name_of(
                    objects@[i as int],
                ) == Some(n)) by {
                if has_release_name(t1, n) {
                    let k = choose|k: int|
                        0 <= k < t1.len() && release_name_of(t1[k]) == Some(n);
                    if k < i {
                        assert(t0[k] == t1[k]);
                        assert(has_release_name(t0, n));
                    } else {
                        assert(t1[k] == objects@[i as int]);
                    }
                }
                if has_release_name(t0, n) {
                    let k = choose|k: int|
                        0 <= k < t0.len() && release_name_of(t0[k]) == Some(n);
                    assert(t1[k] == t0[k]);
                    assert(has_release_name(t1, n));
                }
                if release_name_of(objects@[i as int]) == Some(n) {
                    assert(t1[i as int] == objects@[i as int]);
                    assert(has_release_name(t1, n));
                }
            }
        }
        i = i + 1;
    }
    proof {
        assert(objects@.take(i as int) =~= objects@);
    }
    out
}

} // verus!
