//! The retrieval hook: queries the run may send to a vector store, and the
//! ranking of what comes back.
//!
//! The store itself (embedding, indexing, disk import) lives outside the
//! library; the library decides whether a query is allowed and puts the
//! returned documents into ranked order.

use vstd::prelude::*;

verus! {

/// A retrieval request the embedding application executes against the
/// configured vector store.
#[derive(Debug)]
pub struct RagQuery {
    /// The query text.
    pub query: String,
    /// How many documents the caller wants at most.
    pub top_k: usize,
}

/// One retrieved document with its relevance, scaled to an integer (a higher
/// score is more relevant).
#[derive(Debug)]
pub struct ScoredDocument {
    /// The document's name.
    pub name: String,
    /// The document's text.
    pub data: String,
    /// Scaled relevance of the document to the query.
    pub score: u64,
}

/// Scores never increase along the list.
pub open spec fn sorted_desc(s: Seq<ScoredDocument>) -> bool {
    forall|i: int, j: int| 0 <= i < j < s.len() ==> (#[trigger] s[i]).score >= (#[trigger] s[j]).score
}

/// Keeps the `top_k` most relevant documents, most relevant first. The
/// result holds `top_k` documents, or all of them when fewer came back, in
/// non-increasing score order; every one of them is one of the inputs, and
/// every input either was kept or scores no higher than the least-scored
/// kept one.
pub fn select_top_k(docs: Vec<ScoredDocument>, top_k: usize) -> (r: Vec<ScoredDocument>)
    ensures
        r@.len() == vstd::math::min(top_k as int, docs@.len() as int),
        sorted_desc(r@),
        forall|i: int| 0 <= i < r@.len() ==> docs@.contains(#[trigger] r@[i]),
        r@.len() < top_k ==> forall|i: int| 0 <= i < docs@.len() ==> r@.contains(#[trigger] docs@[i]),
        r@.len() > 0 ==> forall|i: int|
            0 <= i < docs@.len() ==> ((#[trigger] docs@[i]).score <= r@[r@.len() - 1].score
                || r@.contains(docs@[i])),
{
    let ghost orig = docs@;
    let mut src = docs;
    let mut out: Vec<ScoredDocument> = Vec::new();
    while out.len() < top_k && src.len() > 0
        invariant
            out@.len() <= top_k,
            out@.len() + src@.len() == orig.len(),
            sorted_desc(out@),
            forall|i: int| 0 <= i < out@.len() ==> orig.contains(#[trigger] out@[i]),
            forall|i: int| 0 <= i < src@.len() ==> orig.contains(#[trigger] src@[i]),
            forall|i: int|
                0 <= i < orig.len() ==> (out@.contains(#[trigger] orig[i]) || src@.contains(
                    orig[i],
                )),
            forall|a: int, b: int|
                0 <= a < out@.len() && 0 <= b < src@.len() ==> (#[trigger] out@[a]).score >= (
                #[trigger] src@[b]).score,
        decreases src@.len(),
    {
        // find the most relevant remaining document
        let mut m: usize = 0;
        let mut i: usize = 1;
        while i < src.len()
            invariant
                src@.len() > 0,
                m < i <= src@.len(),
                forall|j: int| 0 <= j < i ==> (#[trigger] src@[j]).score <= src@[m as int].score,
            decreases src@.len() - i,
        {
            if src[i].score > src[m].score {
                m = i;
            }
            i = i + 1;
        }
        let ghost src_pre = src@;
        let d = src.remove(m);
        proof {
            src_pre.remove_ensures(m as int);
            assert(orig.contains(src_pre[m as int]));
            assert forall|b: int| 0 <= b < src_pre.len() && b != m as int implies src@.contains(
                src_pre[b],
            ) by {
                if b < m as int {
                    assert(src@[b] == src_pre[b]);
                } else {
                    assert(src@[b - 1] == src_pre[b]);
                }
            }
            assert forall|b: int| 0 <= b < src@.len() implies (#[trigger] src@[b]).score
                <= d.score by {
                if b < m as int {
                    assert(src@[b] == src_pre[b]);
                } else {
                    assert(src@[b] == src_pre[b + 1]);
                }
            }
            assert forall|b: int| 0 <= b < src@.len() implies orig.contains(#[trigger] src@[b]) by {
                if b < m as int {
                    assert(src@[b] == src_pre[b]);
                } else {
                    assert(src@[b] == src_pre[b + 1]);
                }
            }
        }
        let ghost out_pre = out@;
        out.push(d);
        proof {
            assert forall|a: int, b: int| 0 <= a < b < out@.len() implies (
            #[trigger] out@[a]).score >= (#[trigger] out@[b]).score by {
                if b < out_pre.len() {
                    assert(out@[a] == out_pre[a] && out@[b] == out_pre[b]);
                } else {
                    assert(out@[b] == d);
                    if a < out_pre.len() {
                        assert(out@[a] == out_pre[a]);
                        assert(out_pre[a].score >= src_pre[m as int].score);
                    }
                }
            }
            assert forall|a: int, b: int|
                0 <= a < out@.len() && 0 <= b < src@.len() implies (#[trigger] out@[a]).score >= (
            #[trigger] src@[b]).score by {
                if a < out_pre.len() {
                    assert(out@[a] == out_pre[a]);
                    src_pre.remove_ensures(m as int);
                    if b < m as int {
                        assert(src@[b] == src_pre[b]);
                    } else {
                        assert(src@[b] == src_pre[b + 1]);
                    }
                } else {
                    assert(out@[a] == d);
                }
            }
            assert forall|a: int| 0 <= a < out@.len() implies orig.contains(
                #[trigger] out@[a],
            ) by {
                if a < out_pre.len() {
                    assert(out@[a] == out_pre[a]);
                } else {
                    assert(out@[a] == d);
                }
            }
            assert forall|i: int|
                0 <= i < orig.len() implies (out@.contains(#[trigger] orig[i]) || src@.contains(
                    orig[i],
                )) by {
                if out_pre.contains(orig[i]) {
                    let a = choose|a: int| 0 <= a < out_pre.len() && out_pre[a] == orig[i];
                    assert(out@[a] == orig[i]);
                } else {
                    let b = choose|b: int| 0 <= b < src_pre.len() && src_pre[b] == orig[i];
                    if b == m as int {
                        assert(out@[out_pre.len() as int] == d);
                    }
                }
            }
        }
    }
    proof {
        if out@.len() > 0 {
            assert forall|i: int|
                0 <= i < orig.len() implies ((#[trigger] orig[i]).score <= out@[out@.len()
                - 1].score || out@.contains(orig[i])) by {
                if !out@.contains(orig[i]) {
                    let b = choose|b: int| 0 <= b < src@.len() && src@[b] == orig[i];
                    assert(out@[out@.len() - 1].score >= src@[b].score);
                }
            }
        }
        if out@.len() < top_k {
            assert(src@.len() == 0);
        }
    }
    out
}

} // verus!
