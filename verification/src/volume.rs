//! The volumes that can be browsed.
//!
//! Which volumes are mounted is found out by the caller. Of those, the
//! ones whose name marks the system disk are left out, and the first of the
//! rest is the one that is shown to begin with.

use crate::text::{chars_of, has_prefix, last_segment, last_segment_of, starts_with};
use vstd::prelude::*;

verus! {

/// What the name of the system disk begins with.
pub open spec fn system_volume_prefix() -> Seq<char> {
    "Macintosh HD"@
}

/// A mount point that is offered for browsing: one whose name does not
/// mark the system disk.
pub open spec fn is_browsable(path: Seq<char>) -> bool {
    !starts_with(last_segment(path), system_volume_prefix())
}

/// The browsable ones among the mount points, in the order given.
pub open spec fn browsable(paths: Seq<Seq<char>>) -> Seq<Seq<char>> {
    paths.filter(|p: Seq<char>| is_browsable(p))
}

/// The views of a sequence of volumes.
pub open spec fn volumes_view(volumes: Seq<VolumeRoot>) -> Seq<Seq<char>> {
    volumes.map_values(|v: VolumeRoot| v@)
}

/// The root of a mounted volume.
#[derive(Debug)]
pub struct VolumeRoot {
    path: String,
}

impl View for VolumeRoot {
    type V = Seq<char>;

    closed spec fn view(&self) -> Seq<char> {
        self.path@
    }
}

impl VolumeRoot {
    /// The volume mounted at `path`.
    pub fn new(path: String) -> (volume: VolumeRoot)
        ensures
            volume@ == path@,
    {
        VolumeRoot { path }
    }

    /// The absolute path of the root.
    pub fn path(&self) -> (path: &str)
        ensures
            path@ == self@,
    {
        self.path.as_str()
    }

    /// The name under which the volume is shown: the last segment of its
    /// path.
    pub fn display_name(&self) -> (name: String)
        ensures
            name@ == last_segment(self@),
    {
        last_segment_of(self.path.as_str())
    }
}

/// Decides [`is_browsable`].
pub fn offered_for_browsing(path: &str) -> (offered: bool)
    ensures
        offered == is_browsable(path@),
{
    let name = last_segment_of(path);
    let name_chars = chars_of(name.as_str());
    let system = chars_of("Macintosh HD");
    !has_prefix(&name_chars, &system)
}

/// The volumes to offer, given every mount point that was found.
pub fn browsable_volumes(mount_points: Vec<String>) -> (volumes: Vec<VolumeRoot>)
    ensures
        volumes_view(volumes@) == browsable(mount_points@.map_values(|p: String| p@)),
{
    let ghost all = mount_points@.map_values(|p: String| p@);
    let ghost wanted = |p: Seq<char>| is_browsable(p);
    let mut volumes: Vec<VolumeRoot> = Vec::new();
    let mut i: usize = 0;
    assert(all.take(0) =~= Seq::<Seq<char>>::empty());
    assert(all.take(0).filter(wanted) =~= Seq::<Seq<char>>::empty()) by {
        reveal(Seq::filter);
    }
    assert(volumes_view(volumes@) =~= Seq::<Seq<char>>::empty());
    while i < mount_points.len()
        invariant
            i <= mount_points.len(),
            all == mount_points@.map_values(|p: String| p@),
            wanted == (|p: Seq<char>| is_browsable(p)),
            volumes_view(volumes@) == all.take(i as int).filter(wanted),
        decreases mount_points.len() - i,
    {
        let ghost before = volumes_view(volumes@);
        proof {
            assert(all.take(i + 1) =~= all.take(i as int).push(all[i as int]));
            all.take(i as int).lemma_filter_push(all[i as int], wanted);
            assert(all[i as int] == mount_points@[i as int]@);
        }
        if offered_for_browsing(mount_points[i].as_str()) {
            volumes.push(VolumeRoot::new(mount_points[i].clone()));
            assert(volumes_view(volumes@) =~= before.push(all[i as int]));
        }
        i += 1;
    }
    assert(all.take(i as int) =~= all);
    volumes
}

/// The volume that is shown to begin with: the first, if there is any.
pub fn default_volume(volumes: &Vec<VolumeRoot>) -> (chosen: Option<&VolumeRoot>)
    ensures
        match chosen {
            Some(volume) => volumes.len() > 0 && *volume == volumes@[0],
            None => volumes.len() == 0,
        },
{
    if volumes.len() > 0 {
        Some(&volumes[0])
    } else {
        None
    }
}

} // verus!
