use vstd::prelude::*;

use crate::protocol::opt_view;

verus! {

/// The kind of a filesystem change event, as far as the sink cares.
pub enum ChangeKind {
    Create,
    Modify,
    Other,
}

/// Whether events of this kind are forwarded for re-indexing.
pub open spec fn is_forwarded(kind: ChangeKind) -> bool {
    kind is Create || kind is Modify
}

/// The paths among `paths` that are valid text, in order.
pub open spec fn text_paths(paths: Seq<Option<Seq<char>>>) -> Seq<Seq<char>>
    decreases paths.len(),
{
    if paths.len() == 0 {
        Seq::empty()
    } else {
        let rest = text_paths(paths.drop_last());
        match paths.last() {
            Some(p) => rest.push(p),
            None => rest,
        }
    }
}

/// The paths of one change event to hand to the sink: for a creation or a
/// modification, each path that is valid text (`None` stands for one that
/// is not), in order; for any other event, none.
pub fn forwarded_paths(kind: ChangeKind, paths: Vec<Option<String>>) -> (r: Vec<String>)
    ensures
        r@.map_values(|s: String| s@) == if is_forwarded(kind) {
            text_paths(paths@.map_values(|o: Option<String>| opt_view(o)))
        } else {
            Seq::<Seq<char>>::empty()
        },
{
    let mut r: Vec<String> = Vec::new();
    let forward = match kind {
        ChangeKind::Create => true,
        ChangeKind::Modify => true,
        ChangeKind::Other => false,
    };
    if !forward {
        assert(r@.map_values(|s: String| s@) =~= Seq::<Seq<char>>::empty());
        return r;
    }
    let ghost views = paths@.map_values(|o: Option<String>| opt_view(o));
    let mut i: usize = 0;
    while i < paths.len()
        invariant
            i <= paths.len(),
            views == paths@.map_values(|o: Option<String>| opt_view(o)),
            r@.map_values(|s: String| s@) == text_paths(views.subrange(0, i as int)),
        decreases paths.len() - i,
    {
        let ghost before = r@;
        assert(views.subrange(0, i + 1).drop_last() =~= views.subrange(0, i as int));
        match &paths[i] {
            Some(p) => {
                r.push(p.clone());
                assert(r@.map_values(|s: String| s@) =~= before.map_values(|s: String| s@).push(p@));
            },
            None => {},
        }
        i = i + 1;
    }
    assert(views.subrange(0, i as int) =~= views);
    r
}

} // verus!
