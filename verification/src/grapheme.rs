//! The grapheme clusters of a text, as the `unicode-segmentation` crate finds them.

use unicode_segmentation::UnicodeSegmentation;
use vstd::prelude::*;
use vstd::seq_lib::lemma_flatten_concat;

verus! {

/// The extended grapheme clusters of `text`, first to last, as Unicode's rules
/// for text segmentation divide it.
pub uninterp spec fn grapheme_clusters(text: Seq<char>) -> Seq<Seq<char>>;

/// `clusters` divides `text`: no cluster is empty, and laid end to end they
/// give `text` back.
pub open spec fn tiles(clusters: Seq<Seq<char>>, text: Seq<char>) -> bool {
    &&& clusters.flatten() == text
    &&& forall|i: int| 0 <= i < clusters.len() ==> (#[trigger] clusters[i]).len() > 0
}

/// The grapheme clusters of `text` divide it.
pub open spec fn segmented(text: Seq<char>) -> bool {
    tiles(grapheme_clusters(text), text)
}

/// The number of characters that stand before cluster `index`.
pub open spec fn cluster_start(clusters: Seq<Seq<char>>, index: int) -> int {
    clusters.take(index).flatten().len() as int
}

/// Trusted: `UnicodeSegmentation::graphemes` of the `unicode-segmentation`
/// crate, called with `is_extended` set. The contract names the clusters it
/// yields and claims of them what its iterator shows: each item is a non-empty
/// slice of the text that begins where the one before ended, from the first
/// byte to the last.
#[verifier::external_body]
pub(crate) fn graphemes(text: &str) -> (clusters: Vec<String>)
    ensures
        clusters.deep_view() == grapheme_clusters(text@),
        tiles(clusters.deep_view(), text@),
{
    text.graphemes(true).map(String::from).collect()
}

/// One more cluster adds its characters to the end.
pub proof fn lemma_take_flatten_step(clusters: Seq<Seq<char>>, i: int)
    requires
        0 <= i < clusters.len(),
    ensures
        clusters.take(i + 1).flatten() == clusters.take(i).flatten() + clusters[i],
{
    assert(clusters.take(i + 1) == clusters.take(i).push(clusters[i]));
    clusters.take(i).lemma_flatten_push(clusters[i]);
}

/// Cutting the clusters anywhere cuts the text in two.
pub proof fn lemma_take_skip_flatten(clusters: Seq<Seq<char>>, i: int)
    requires
        0 <= i <= clusters.len(),
    ensures
        clusters.take(i).flatten() + clusters.skip(i).flatten() == clusters.flatten(),
{
    assert(clusters.take(i) + clusters.skip(i) == clusters);
    lemma_flatten_concat(clusters.take(i), clusters.skip(i));
}

/// Among clusters none of which is empty, a later one starts further on.
pub proof fn lemma_cluster_start_grows(clusters: Seq<Seq<char>>, i: int, j: int)
    requires
        forall|k: int| 0 <= k < clusters.len() ==> (#[trigger] clusters[k]).len() > 0,
        0 <= i <= j <= clusters.len(),
    ensures
        cluster_start(clusters, i) <= cluster_start(clusters, j),
        i < j ==> cluster_start(clusters, i) < cluster_start(clusters, j),
    decreases j - i,
{
    if i < j {
        lemma_cluster_start_grows(clusters, i, j - 1);
        lemma_take_flatten_step(clusters, j - 1);
    }
}

} // verus!
