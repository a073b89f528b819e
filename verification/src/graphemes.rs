use vstd::prelude::*;
use unicode_segmentation::UnicodeSegmentation;

verus! {

/// The extended grapheme clusters of a sequence of characters, in order.
/// What exactly constitutes a cluster is delegated to the segmentation
/// library; this crate only relies on the facts stated where the name is
/// applied.
pub uninterp spec fn graphemes_of(s: Seq<char>) -> Seq<Seq<char>>;

/// The character sequences of a list of grapheme clusters.
pub open spec fn cluster_views(r: Seq<String>) -> Seq<Seq<char>> {
    r.map_values(|g: String| g@)
}

/// Relies on unicode_segmentation's `UnicodeSegmentation::graphemes` (with
/// extended clusters switched on): it yields the grapheme clusters of the
/// string in order; the clusters are nonempty and concatenate back to the
/// string, and segmentation depends on the characters alone.
#[verifier::external_body]
pub(crate) fn grapheme_split(s: &str) -> (r: Vec<String>)
    ensures
        cluster_views(r@) == graphemes_of(s@),
        cluster_views(r@).flatten() == s@,
        forall|i: int| 0 <= i < r@.len() ==> r@[i]@.len() >= 1,
{
    UnicodeSegmentation::graphemes(s, true).map(|g: &str| g.to_string()).collect()
}

/// The number of grapheme clusters in a string.
pub fn grapheme_count(s: &str) -> (r: usize)
    ensures
        r == graphemes_of(s@).len(),
{
    let clusters = grapheme_split(s);
    assert(clusters@.len() == cluster_views(clusters@).len());
    clusters.len()
}

/// Concatenate the clusters `from..to` of a cluster list into one string.
pub(crate) fn concat_clusters(clusters: &Vec<String>, from: usize, to: usize) -> (r: String)
    requires
        from <= to <= clusters@.len(),
    ensures
        r@ == cluster_views(clusters@).subrange(from as int, to as int).flatten(),
{
    let mut out: String = String::new();
    let mut i: usize = from;
    proof {
        assert(cluster_views(clusters@).subrange(from as int, from as int) =~= Seq::<
            Seq<char>,
        >::empty());
        assert(Seq::<Seq<char>>::empty().flatten() =~= Seq::<char>::empty());
    }
    while i < to
        invariant
            from <= i <= to <= clusters@.len(),
            out@ == cluster_views(clusters@).subrange(from as int, i as int).flatten(),
        decreases to - i,
    {
        out.append(clusters[i].as_str());
        proof {
            let views = cluster_views(clusters@);
            assert(views.subrange(from as int, i + 1) =~= views.subrange(
                from as int,
                i as int,
            ).push(views[i as int]));
            views.subrange(from as int, i as int).lemma_flatten_push(views[i as int]);
        }
        i = i + 1;
    }
    out
}

} // verus!
