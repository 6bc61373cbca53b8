//! Boot volumes: which mounted block devices are Baochip boot volumes, and which one an image
//! may be copied to.

use vstd::prelude::*;

use std::path::PathBuf;

use crate::image::error::ImageError;
use crate::text::{chars_to_string, push_str};

verus! {

#[verifier::external_type_specification]
#[verifier::external_body]
pub struct ExPathBuf(PathBuf);

/// A mounted volume labelled as a Baochip boot volume.
#[derive(Debug)]
pub struct MountCandidate {
    pub path: PathBuf,
    pub label: String,
}

impl View for MountCandidate {
    type V = (PathBuf, Seq<char>);

    open spec fn view(&self) -> (PathBuf, Seq<char>) {
        (self.path, self.label@)
    }
}

/// A block device as `lsblk` lists it: its label, its mount points, and its children.
pub struct BlockDevice {
    pub label: Option<String>,
    pub mountpoints: Vec<Option<PathBuf>>,
    pub children: Vec<BlockDevice>,
}

/// The label of the normal boot volume.
pub open spec fn baochip_label() -> Seq<char> {
    "BAOCHIP"@
}

/// The label of the alternate boot volume.
pub open spec fn altchip_label() -> Seq<char> {
    "ALTCHIP"@
}

/// The present mount points among `points`, in order, each with `label`.
pub open spec fn labelled_mounts(points: Seq<Option<PathBuf>>, label: Seq<char>) -> Seq<
    (PathBuf, Seq<char>),
>
    decreases points.len(),
{
    if points.len() == 0 {
        seq![]
    } else {
        let rest = labelled_mounts(points.drop_last(), label);
        match points.last() {
            Some(path) => rest.push((path, label)),
            None => rest,
        }
    }
}

/// The boot-volume mounts of device `d` itself: its mount points when it is labelled
/// `BAOCHIP` or `ALTCHIP`.
pub open spec fn own_mounts(d: BlockDevice) -> Seq<(PathBuf, Seq<char>)> {
    match d.label {
        Some(label) => if label@ == baochip_label() || label@ == altchip_label() {
            labelled_mounts(d.mountpoints@, label@)
        } else {
            seq![]
        },
        None => seq![],
    }
}

/// The boot-volume mounts of `d` and of its descendants, depth first, each device before its
/// children.
pub open spec fn device_mounts(d: BlockDevice) -> Seq<(PathBuf, Seq<char>)>
    decreases d, d.children@.len() + 1,
{
    own_mounts(d) + children_mounts(d, d.children@.len() as int)
}

/// The boot-volume mounts of the first `n` children of `d` and of their descendants.
pub open spec fn children_mounts(d: BlockDevice, n: int) -> Seq<(PathBuf, Seq<char>)>
    decreases d, n,
{
    if n <= 0 || n > d.children@.len() {
        seq![]
    } else {
        proof {
            assert(decreases_to!(d => d.children));
            assert(decreases_to!(d.children => d.children@));
            assert(decreases_to!(d.children@ => d.children@[n - 1]));
        }
        children_mounts(d, n - 1) + device_mounts(d.children@[n - 1])
    }
}

/// The abstract values of the candidates `ms`.
pub open spec fn candidates_view(ms: Seq<MountCandidate>) -> Seq<(PathBuf, Seq<char>)> {
    ms.map_values(|m: MountCandidate| m@)
}

/// Whether `label` names a boot volume.
fn is_boot_label(label: &String) -> (b: bool)
    ensures
        b == (label@ == baochip_label() || label@ == altchip_label()),
{
    let baochip = String::from_str("BAOCHIP");
    let altchip = String::from_str("ALTCHIP");
    *label == baochip || *label == altchip
}

/// Appends, in order, a candidate labelled `label` for each present mount point of
/// `points`.
fn push_labelled(points: Vec<Option<PathBuf>>, label: &String, mounts: &mut Vec<MountCandidate>)
    ensures
        candidates_view(final(mounts)@) == candidates_view(old(mounts)@) + labelled_mounts(
            points@,
            label@,
        ),
{
    let ghost all = points@;
    let ghost start = candidates_view(mounts@);
    let mut rest = points;
    let n = rest.len();
    let mut i: usize = 0;
    while i < n
        invariant
            n == all.len(),
            i <= n,
            rest@ == all.skip(i as int),
            candidates_view(mounts@) == start + labelled_mounts(all.take(i as int), label@),
        decreases n - i,
    {
        let point = rest.remove(0);
        assert(point == all[i as int]);
        assert(all.take(i + 1).drop_last() =~= all.take(i as int));
        assert(all.take(i + 1).last() == all[i as int]);
        match point {
            Some(path) => {
                let ghost before = mounts@;
                mounts.push(MountCandidate { path, label: label.clone() });
                assert(candidates_view(mounts@) =~= candidates_view(before).push((path, label@)));
            },
            None => {},
        }
        assert(rest@ =~= all.skip(i + 1));
        i = i + 1;
    }
    assert(all.take(n as int) =~= all);
}

/// Appends the boot-volume mounts of `device` and of its descendants, depth first, each
/// device before its children: every mount point of a device labelled `BAOCHIP` or
/// `ALTCHIP`, with that label.
pub fn collect_mounts(device: BlockDevice, mounts: &mut Vec<MountCandidate>)
    ensures
        candidates_view(final(mounts)@) == candidates_view(old(mounts)@) + device_mounts(device),
    decreases device, device.children@.len() + 1,
{
    let ghost d = device;
    let ghost start = candidates_view(mounts@);
    let BlockDevice { label, mountpoints, children } = device;
    match label {
        Some(label) => {
            if is_boot_label(&label) {
                push_labelled(mountpoints, &label, mounts);
            }
        },
        None => {},
    }
    assert(candidates_view(mounts@) == start + own_mounts(d));
    let ghost middle = candidates_view(mounts@);
    let mut rest = children;
    let n = rest.len();
    let mut i: usize = 0;
    while i < n
        invariant
            n == d.children@.len(),
            i <= n,
            rest@ == d.children@.skip(i as int),
            d == device,
            candidates_view(mounts@) == middle + children_mounts(d, i as int),
        decreases n - i,
    {
        let child = rest.remove(0);
        assert(child == d.children@[i as int]);
        proof {
            assert(decreases_to!(d => d.children));
            assert(decreases_to!(d.children => d.children@));
            assert(decreases_to!(d.children@ => d.children@[i as int]));
            assert(decreases_to!(d => child));
        }
        collect_mounts(child, mounts);
        assert(candidates_view(mounts@) =~= middle + children_mounts(d, i + 1));
        assert(rest@ =~= d.children@.skip(i + 1));
        i = i + 1;
    }
}

/// Which boot volume the user asked for: the only `BAOCHIP` volume, or an explicit target,
/// given as the index of the candidate whose canonical path is the target's (`None` when no
/// candidate's is).
pub enum TargetRequest {
    Any,
    Matching(Option<usize>),
}

/// How many of the candidates `cands` are labelled `BAOCHIP`.
pub open spec fn baochip_count(cands: Seq<(PathBuf, Seq<char>)>) -> nat
    decreases cands.len(),
{
    if cands.len() == 0 {
        0
    } else {
        baochip_count(cands.drop_last()) + if cands.last().1 == baochip_label() {
            1nat
        } else {
            0nat
        }
    }
}

/// The abstract value of a selection: the chosen candidate's index, or the message.
pub open spec fn selection_view(r: Result<usize, ImageError>) -> Result<usize, Seq<char>> {
    match r {
        Ok(i) => Ok(i),
        Err(e) => Err(e@),
    }
}

/// The selection made among `cands` for `request`, where it is determined by them: an
/// explicit target that is no candidate, or that is not `BAOCHIP`, is refused; with no
/// explicit target there must be exactly one `BAOCHIP` candidate.
pub open spec fn selection_outcome(
    cands: Seq<(PathBuf, Seq<char>)>,
    request: TargetRequest,
    r: Result<usize, Seq<char>>,
) -> bool {
    match request {
        TargetRequest::Matching(None) => r == Err::<usize, Seq<char>>(
            "explicit target is not a mounted BAOCHIP/ALTCHIP volume"@,
        ),
        TargetRequest::Matching(Some(i)) => if cands[i as int].1 == baochip_label() {
            r == Ok::<usize, Seq<char>>(i)
        } else {
            r == Err::<usize, Seq<char>>("refusing ALTCHIP target"@)
        },
        TargetRequest::Any => if baochip_count(cands) == 0 {
            r == Err::<usize, Seq<char>>("no mounted BAOCHIP volume found"@)
        } else if baochip_count(cands) > 1 {
            r == Err::<usize, Seq<char>>("multiple BAOCHIP volumes found; use --target"@)
        } else {
            r matches Ok(i) && i < cands.len() && cands[i as int].1 == baochip_label()
        },
    }
}

/// An error whose message is the literal `m`.
fn error_str(m: &str) -> (e: ImageError)
    ensures
        e@ == m@,
{
    let mut out: Vec<char> = Vec::new();
    push_str(&mut out, m);
    ImageError::new(chars_to_string(&out))
}

/// Selects the boot volume to copy to among `candidates`: the explicit target if it is a
/// `BAOCHIP` candidate, or else the only `BAOCHIP` candidate. `ALTCHIP` volumes are never
/// selected.
pub fn select_mount_index(candidates: &[MountCandidate], request: TargetRequest) -> (r: Result<
    usize,
    ImageError,
>)
    requires
        request matches TargetRequest::Matching(Some(i)) ==> i < candidates@.len(),
    ensures
        selection_outcome(candidates_view(candidates@), request, selection_view(r)),
{
    let ghost cands = candidates_view(candidates@);
    let baochip = String::from_str("BAOCHIP");
    let selected = match request {
        TargetRequest::Matching(None) => {
            return Err(error_str("explicit target is not a mounted BAOCHIP/ALTCHIP volume"));
        },
        TargetRequest::Matching(Some(i)) => i,
        TargetRequest::Any => {
            let n = candidates.len();
            let mut found: Option<usize> = None;
            let mut count: usize = 0;
            let mut k: usize = 0;
            while k < n
                invariant
                    n == candidates@.len(),
                    cands == candidates_view(candidates@),
                    baochip@ == baochip_label(),
                    k <= n,
                    count == baochip_count(cands.take(k as int)),
                    count <= k,
                    count == 0 <==> found is None,
                    found matches Some(j) ==> j < k && cands[j as int].1 == baochip_label(),
                decreases n - k,
            {
                assert(cands.take(k + 1).drop_last() =~= cands.take(k as int));
                assert(cands[k as int] == candidates@[k as int]@);
                if candidates[k].label == baochip {
                    count = count + 1;
                    found = Some(k);
                }
                k = k + 1;
            }
            assert(cands.take(n as int) =~= cands);
            if count == 0 {
                return Err(error_str("no mounted BAOCHIP volume found"));
            }
            if count > 1 {
                return Err(error_str("multiple BAOCHIP volumes found; use --target"));
            }
            match found {
                Some(j) => j,
                None => {
                    return Err(error_str("no mounted BAOCHIP volume found"));
                },
            }
        },
    };
    assert(cands[selected as int] == candidates@[selected as int]@);
    if candidates[selected].label != baochip {
        return Err(error_str("refusing ALTCHIP target"));
    }
    Ok(selected)
}

proof fn lemma_labelled_mounts_label(points: Seq<Option<PathBuf>>, label: Seq<char>)
    ensures
        forall|i: int|
            0 <= i < labelled_mounts(points, label).len() ==> (#[trigger] labelled_mounts(
                points,
                label,
            )[i]).1 == label,
    decreases points.len(),
{
    if points.len() > 0 {
        lemma_labelled_mounts_label(points.drop_last(), label);
        let rest = labelled_mounts(points.drop_last(), label);
        let all = labelled_mounts(points, label);
        assert forall|i: int| 0 <= i < all.len() implies (#[trigger] all[i]).1 == label by {
            if i < rest.len() {
                assert(all[i] == rest[i]);
            }
        }
    }
}

/// Whether `m` carries a boot-volume label.
pub open spec fn boot_labelled(m: (PathBuf, Seq<char>)) -> bool {
    m.1 == baochip_label() || m.1 == altchip_label()
}

proof fn lemma_children_mounts_labels(d: BlockDevice, n: int)
    ensures
        forall|i: int|
            0 <= i < children_mounts(d, n).len() ==> boot_labelled(
                #[trigger] children_mounts(d, n)[i],
            ),
    decreases d, n,
{
    if 0 < n <= d.children@.len() {
        assert(decreases_to!(d => d.children));
        assert(decreases_to!(d.children => d.children@));
        assert(decreases_to!(d.children@ => d.children@[n - 1]));
        lemma_children_mounts_labels(d, n - 1);
        law_collected_mounts_are_boot_volumes(d.children@[n - 1]);
        let front = children_mounts(d, n - 1);
        let back = device_mounts(d.children@[n - 1]);
        assert forall|i: int| 0 <= i < children_mounts(d, n).len() implies boot_labelled(
            #[trigger] children_mounts(d, n)[i],
        ) by {
            if i < front.len() {
                assert(children_mounts(d, n)[i] == front[i]);
            } else {
                assert(children_mounts(d, n)[i] == back[i - front.len()]);
            }
        }
    }
}

/// Every mount collected from a device tree is labelled `BAOCHIP` or `ALTCHIP`.
pub proof fn law_collected_mounts_are_boot_volumes(d: BlockDevice)
    ensures
        forall|i: int| 0 <= i < device_mounts(d).len() ==> boot_labelled(#[trigger] device_mounts(d)[i]),
    decreases d, d.children@.len() + 1,
{
    lemma_children_mounts_labels(d, d.children@.len() as int);
    let own = own_mounts(d);
    let rest = children_mounts(d, d.children@.len() as int);
    match d.label {
        Some(label) => {
            lemma_labelled_mounts_label(d.mountpoints@, label@);
        },
        None => {},
    }
    assert forall|i: int| 0 <= i < device_mounts(d).len() implies boot_labelled(
        #[trigger] device_mounts(d)[i],
    ) by {
        if i < own.len() {
            assert(device_mounts(d)[i] == own[i]);
        } else {
            assert(device_mounts(d)[i] == rest[i - own.len()]);
        }
    }
}

/// A selection never picks an `ALTCHIP` volume: whatever was asked, the candidate selected
/// is labelled `BAOCHIP`.
pub proof fn law_selection_is_baochip(
    cands: Seq<(PathBuf, Seq<char>)>,
    request: TargetRequest,
    r: Result<usize, Seq<char>>,
)
    requires
        selection_outcome(cands, request, r),
        request matches TargetRequest::Matching(Some(i)) ==> i < cands.len(),
    ensures
        r matches Ok(i) ==> i < cands.len() && cands[i as int].1 == baochip_label(),
{
}

} // verus!
