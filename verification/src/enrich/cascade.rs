//! The enrichment cascade: the sources in ascending priority, each
//! patch merged over the ones before, so the last source to set a field
//! wins.

use vstd::prelude::*;
use crate::enrich::identity::{merge_into, merged, no_identity, DetectedVia, IdentityUpdate, IdentityView};

verus! {

/// The sources, lowest priority first: desktop entry, PE version info,
/// GOG info file, Heroic library, Lutris database, Steam manifest.
pub open spec fn cascade_order_spec() -> Seq<DetectedVia> {
    seq![
        DetectedVia::Desktop,
        DetectedVia::Pe,
        DetectedVia::Gog,
        DetectedVia::Heroic,
        DetectedVia::Lutris,
        DetectedVia::Steam,
    ]
}

/// The sources in the order they are consulted.
pub fn cascade_order() -> (r: Vec<DetectedVia>)
    ensures
        r@ == cascade_order_spec(),
{
    let r = vec![
        DetectedVia::Desktop,
        DetectedVia::Pe,
        DetectedVia::Gog,
        DetectedVia::Heroic,
        DetectedVia::Lutris,
        DetectedVia::Steam,
    ];
    assert(r@ =~= cascade_order_spec());
    r
}

/// The views of the patches.
pub open spec fn patches_view(p: Seq<(DetectedVia, Option<IdentityUpdate>)>) -> Seq<(DetectedVia, Option<IdentityView>)> {
    p.map_values(
        |e: (DetectedVia, Option<IdentityUpdate>)|
            (
                e.0,
                match e.1 {
                    Some(u) => Some(u@),
                    None => None,
                },
            ),
    )
}

/// The patches merged in order over `acc`.
pub open spec fn merged_all(acc: IdentityView, patches: Seq<(DetectedVia, Option<IdentityView>)>) -> IdentityView
    decreases patches.len(),
{
    if patches.len() == 0 {
        acc
    } else {
        let before = merged_all(acc, patches.drop_last());
        match patches.last().1 {
            Some(p) => merged(before, patches.last().0, p),
            None => before,
        }
    }
}

/// Merge the sources' patches, given in cascade order, into one.
pub fn build_patch(patches: Vec<(DetectedVia, Option<IdentityUpdate>)>) -> (r: IdentityUpdate)
    ensures
        r@ == merged_all(no_identity(), patches_view(patches@)),
{
    let ghost pv = patches_view(patches@);
    let ghost all = patches@;
    let n = patches.len();
    let mut acc = IdentityUpdate::default();
    let mut rest = patches;
    let mut i: usize = 0;
    assert(all.skip(0) =~= all);
    while rest.len() > 0
        invariant
            i <= all.len(),
            n == all.len(),
            rest@ == all.skip(i as int),
            pv == patches_view(all),
            acc@ == merged_all(no_identity(), pv.take(i as int)),
        decreases rest.len(),
    {
        let (source, patch) = rest.remove(0);
        assert(pv.take(i + 1).drop_last() =~= pv.take(i as int));
        assert(all.skip(i as int)[0] == all[i as int]);
        merge_into(&mut acc, source, patch);
        assert(rest@ =~= all.skip(i + 1));
        i += 1;
    }
    assert(i == all.len());
    assert(pv.take(i as int) =~= pv);
    acc
}

/// A source that finds nothing leaves the merged patch as it was; a
/// source that sets the product name becomes its provenance.
pub proof fn lemma_cascade_step(
    acc: IdentityView,
    patches: Seq<(DetectedVia, Option<IdentityView>)>,
    source: DetectedVia,
    patch: Option<IdentityView>,
)
    ensures
        patch is None ==> merged_all(acc, patches.push((source, patch))) == merged_all(acc, patches),
        (patch matches Some(p) && p.product_name is Some) ==> merged_all(
            acc,
            patches.push((source, patch)),
        ).detected_via == Some(source),
{
    assert(patches.push((source, patch)).drop_last() =~= patches);
}

} // verus!
