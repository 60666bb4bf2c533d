//! A plain model of HTTP headers: an ordered list of name/value pairs.
//! Names are expected already normalized to the exact case the caller
//! compares with (the HTTP layer outside this crate lower-cases them).

use vstd::prelude::*;
use crate::text::str_eq;

verus! {

/// The value of the first header named `name`.
pub open spec fn spec_header_get(
    headers: Seq<(Seq<char>, Seq<char>)>,
    name: Seq<char>,
) -> Option<Seq<char>>
    decreases headers.len(),
{
    if headers.len() == 0 {
        None
    } else if headers[0].0 == name {
        Some(headers[0].1)
    } else {
        spec_header_get(headers.drop_first(), name)
    }
}

/// View of a header list.
pub open spec fn header_views(headers: Seq<(String, String)>) -> Seq<(Seq<char>, Seq<char>)> {
    headers.map_values(|h: (String, String)| (h.0@, h.1@))
}

/// Returns the value of the first header named `name`, if any.
pub fn header_get(headers: &Vec<(String, String)>, name: &str) -> (r: Option<String>)
    ensures
        match r {
            Some(v) => spec_header_get(header_views(headers@), name@) == Some(v@),
            None => spec_header_get(header_views(headers@), name@) is None,
        },
{
    let mut i: usize = 0;
    while i < headers.len()
        invariant
            0 <= i <= headers@.len(),
            forall|j: int| 0 <= j < i ==> (#[trigger] header_views(headers@)[j]).0 != name@,
        decreases headers@.len() - i,
    {
        if str_eq(headers[i].0.as_str(), name) {
            let v = headers[i].1.clone();
            proof {
                lemma_header_get_hit(header_views(headers@), name@, i as int);
            }
            return Some(v);
        }
        i += 1;
    }
    proof {
        lemma_header_get_miss(header_views(headers@), name@);
    }
    None
}

/// Replaces the first header named `name`, or appends one.  Every
/// header under another name keeps its value.
pub fn header_set(headers: &mut Vec<(String, String)>, name: &str, value: &str)
    ensures
        spec_header_get(header_views(final(headers)@), name@) == Some(value@),
        forall|other: Seq<char>|
            other != name@ ==> #[trigger] spec_header_get(header_views(final(headers)@), other)
                == spec_header_get(header_views(old(headers)@), other),
        final(headers)@.len() <= old(headers)@.len() + 1,
{
    let n = headers.len();
    let mut i: usize = 0;
    while i < n
        invariant
            0 <= i <= n,
            n == headers@.len(),
            headers@ == old(headers)@,
            forall|j: int| 0 <= j < i ==> (#[trigger] header_views(headers@)[j]).0 != name@,
        decreases n - i,
    {
        if str_eq(headers[i].0.as_str(), name) {
            let ghost pre = headers@;
            headers[i].1 = value.to_owned();
            proof {
                assert(headers@.len() == pre.len());
                assert forall|j: int|
                    0 <= j < i implies (#[trigger] header_views(headers@)[j]).0 != name@ by {
                    assert(headers@[j] == pre[j]);
                    assert(header_views(pre)[j].0 != name@);
                }
                assert(header_views(headers@)[i as int].0 == name@);
                assert(header_views(headers@)[i as int].1 == value@);
                lemma_header_get_hit(header_views(headers@), name@, i as int);
                assert forall|other: Seq<char>|
                    other != name@ implies #[trigger] spec_header_get(
                        header_views(headers@),
                        other,
                    ) == spec_header_get(header_views(pre), other) by {
                    assert(forall|k: int|
                        0 <= k < pre.len() && k != i ==> headers@[k] == pre[k]);
                    assert(forall|k: int|
                        0 <= k < pre.len() && k != i ==> header_views(headers@)[k] == header_views(
                            pre,
                        )[k]);
                    lemma_header_get_update_other(
                        header_views(pre),
                        header_views(headers@),
                        i as int,
                        other,
                    );
                }
            }
            return;
        }
        i += 1;
    }
    let ghost pre = headers@;
    headers.push((name.to_owned(), value.to_owned()));
    proof {
        let hv = header_views(headers@);
        assert forall|j: int| 0 <= j < hv.len() - 1 implies (#[trigger] hv[j]).0 != name@ by {
            assert(headers@[j] == pre[j]);
            assert(header_views(pre)[j].0 != name@);
        }
        assert(hv[hv.len() - 1].0 == name@ && hv[hv.len() - 1].1 == value@);
        lemma_header_get_hit(hv, name@, hv.len() - 1);
        assert forall|other: Seq<char>|
            other != name@ implies #[trigger] spec_header_get(hv, other) == spec_header_get(
                header_views(pre),
                other,
            ) by {
            assert(hv =~= header_views(pre).push((name@, value@)));
            lemma_header_get_push_other(header_views(pre), (name@, value@), other);
        }
    }
}

proof fn lemma_header_get_update_other(
    pre: Seq<(Seq<char>, Seq<char>)>,
    post: Seq<(Seq<char>, Seq<char>)>,
    i: int,
    other: Seq<char>,
)
    requires
        pre.len() == post.len(),
        0 <= i < pre.len(),
        forall|k: int| 0 <= k < pre.len() && k != i ==> post[k] == pre[k],
        post[i].0 == pre[i].0,
        pre[i].0 != other,
    ensures
        spec_header_get(post, other) == spec_header_get(pre, other),
    decreases pre.len(),
{
    if pre.len() > 0 {
        if i == 0 {
            assert(post.drop_first() =~= pre.drop_first());
        } else {
            assert(post[0] == pre[0]);
            lemma_header_get_update_other(pre.drop_first(), post.drop_first(), i - 1, other);
        }
    }
}

proof fn lemma_header_get_push_other(
    headers: Seq<(Seq<char>, Seq<char>)>,
    entry: (Seq<char>, Seq<char>),
    other: Seq<char>,
)
    requires
        entry.0 != other,
    ensures
        spec_header_get(headers.push(entry), other) == spec_header_get(headers, other),
    decreases headers.len(),
{
    if headers.len() == 0 {
        assert(headers.push(entry)[0] == entry);
        assert(headers.push(entry).drop_first() =~= headers);
    } else {
        assert(headers.push(entry).drop_first() =~= headers.drop_first().push(entry));
        lemma_header_get_push_other(headers.drop_first(), entry, other);
    }
}

proof fn lemma_header_get_hit(headers: Seq<(Seq<char>, Seq<char>)>, name: Seq<char>, i: int)
    requires
        0 <= i < headers.len(),
        headers[i].0 == name,
        forall|j: int| 0 <= j < i ==> (#[trigger] headers[j]).0 != name,
    ensures
        spec_header_get(headers, name) == Some(headers[i].1),
    decreases headers.len(),
{
    if i > 0 {
        lemma_header_get_hit(headers.drop_first(), name, i - 1);
    }
}

proof fn lemma_header_get_miss(headers: Seq<(Seq<char>, Seq<char>)>, name: Seq<char>)
    requires
        forall|j: int| 0 <= j < headers.len() ==> (#[trigger] headers[j]).0 != name,
    ensures
        spec_header_get(headers, name) is None,
    decreases headers.len(),
{
    if headers.len() > 0 {
        lemma_header_get_miss(headers.drop_first(), name);
    }
}

} // verus!
