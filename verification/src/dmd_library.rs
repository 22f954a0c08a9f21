//! The curated library of pre-converted pinball DMD (dot matrix display)
//! animations, and the mapping from git commands to them. Loading and
//! decoding the animation files is I/O and happens outside the library;
//! the catalogue and the mapping are verified here.

use crate::text::str_eq;
use vstd::prelude::*;
use vstd::string::StrSliceExecFns;

verus! {

/// Which converter an animation source file needs.
#[derive(Clone, Copy, Debug, PartialEq, Eq, Structural)]
pub enum MediaKind {
    /// An animated GIF, decoded in memory.
    Gif,
    /// A video container, decoded by an external video backend.
    Video,
    /// Anything else: not convertible.
    Unsupported,
}

/// The converter a file path selects, by its extension.
pub open spec fn spec_media_kind(path: Seq<char>) -> MediaKind {
    if path.len() >= 4 && path.skip(path.len() - 4) == ".gif"@ {
        MediaKind::Gif
    } else if path.len() >= 4 && path.skip(path.len() - 4) == ".mp4"@ {
        MediaKind::Video
    } else {
        MediaKind::Unsupported
    }
}

/// Which converter a DMD source file needs, decided by its extension.
pub fn media_kind_of_path(path: &str) -> (k: MediaKind)
    ensures
        k == spec_media_kind(path@),
{
    let n = path.unicode_len();
    if n < 4 {
        return MediaKind::Unsupported;
    }
    let tail = path.substring_char(n - 4, n);
    proof {
        assert(tail@ =~= path@.skip(path@.len() - 4));
    }
    if str_eq(tail, ".gif") {
        MediaKind::Gif
    } else if str_eq(tail, ".mp4") {
        MediaKind::Video
    } else {
        MediaKind::Unsupported
    }
}

/// Metadata of one curated DMD animation.
#[derive(Debug, Clone)]
pub struct DmdInfo {
    pub name: &'static str,
    pub file_path: &'static str,
    pub description: &'static str,
    pub frames: usize,
}

/// The available DMD animations.
#[derive(Clone, Copy, Debug, PartialEq, Eq, Structural)]
pub enum DmdAnimation {
    Invader,
    Skull,
    Sword,
    EyesLook1,
    EyesLook2,
    TeethChomp,
}

/// The short name of a DMD animation.
pub open spec fn spec_dmd_name(d: DmdAnimation) -> Seq<char> {
    match d {
        DmdAnimation::Invader => "invader"@,
        DmdAnimation::Skull => "skull"@,
        DmdAnimation::Sword => "sword"@,
        DmdAnimation::EyesLook1 => "eyes_look_1"@,
        DmdAnimation::EyesLook2 => "eyes_look_2"@,
        DmdAnimation::TeethChomp => "teeth_chomp"@,
    }
}

/// The animation file a DMD animation is converted from.
pub open spec fn spec_dmd_path(d: DmdAnimation) -> Seq<char> {
    match d {
        DmdAnimation::Invader => "ref/dmd_invader.gif"@,
        DmdAnimation::Skull => "ref/monster_bash_dmd.gif"@,
        DmdAnimation::Sword => "ref/dmd_sword.gif"@,
        DmdAnimation::EyesLook1 => "ref/eyes_look_around_1.mp4"@,
        DmdAnimation::EyesLook2 => "ref/eyes_look_2.mp4"@,
        DmdAnimation::TeethChomp => "ref/teeth_chomp.mp4"@,
    }
}

/// The catalogue description of a DMD animation.
pub open spec fn spec_dmd_description(d: DmdAnimation) -> Seq<char> {
    match d {
        DmdAnimation::Invader => "Monster Bash invader character (38 frames, quick & energetic)"@,
        DmdAnimation::Skull => "Monster Bash skull character (63 frames, action sequence)"@,
        DmdAnimation::Sword => "Monster Bash sword character (42 frames, victory pose)"@,
        DmdAnimation::EyesLook1 => "Monster Bash eyes looking around animation"@,
        DmdAnimation::EyesLook2 => "Monster Bash eyes looking animation"@,
        DmdAnimation::TeethChomp => "Monster Bash teeth chomping animation"@,
    }
}

/// The catalogued frame count of a DMD animation; zero where the count is
/// only known after conversion.
pub open spec fn spec_dmd_frames(d: DmdAnimation) -> int {
    match d {
        DmdAnimation::Invader => 38,
        DmdAnimation::Skull => 63,
        DmdAnimation::Sword => 42,
        DmdAnimation::EyesLook1 => 0,
        DmdAnimation::EyesLook2 => 0,
        DmdAnimation::TeethChomp => 0,
    }
}

/// Every catalogued animation, in catalogue order.
pub open spec fn spec_all_dmds() -> Seq<DmdAnimation> {
    seq![
        DmdAnimation::Invader,
        DmdAnimation::Skull,
        DmdAnimation::Sword,
        DmdAnimation::EyesLook1,
        DmdAnimation::EyesLook2,
        DmdAnimation::TeethChomp,
    ]
}

/// The DMD animation themed for a git command, if one is catalogued.
pub open spec fn spec_git_command_to_dmd(command: Seq<char>) -> Option<DmdAnimation> {
    if command == "status"@ || command == "diff"@ || command == "log"@ {
        Some(DmdAnimation::EyesLook1)
    } else if command == "pull"@ || command == "fetch"@ || command == "clone"@ {
        Some(DmdAnimation::Skull)
    } else if command == "push"@ {
        Some(DmdAnimation::Sword)
    } else if command == "commit"@ {
        Some(DmdAnimation::TeethChomp)
    } else if command == "merge"@ {
        Some(DmdAnimation::EyesLook2)
    } else {
        None
    }
}

impl DmdAnimation {
    /// This animation's catalogue entry.
    pub fn info(&self) -> (r: DmdInfo)
        ensures
            r.name@ == spec_dmd_name(*self),
            r.file_path@ == spec_dmd_path(*self),
            r.description@ == spec_dmd_description(*self),
            r.frames == spec_dmd_frames(*self),
    {
        match self {
            DmdAnimation::Invader => DmdInfo {
                name: "invader",
                file_path: "ref/dmd_invader.gif",
                description: "Monster Bash invader character (38 frames, quick & energetic)",
                frames: 38,
            },
            DmdAnimation::Skull => DmdInfo {
                name: "skull",
                file_path: "ref/monster_bash_dmd.gif",
                description: "Monster Bash skull character (63 frames, action sequence)",
                frames: 63,
            },
            DmdAnimation::Sword => DmdInfo {
                name: "sword",
                file_path: "ref/dmd_sword.gif",
                description: "Monster Bash sword character (42 frames, victory pose)",
                frames: 42,
            },
            DmdAnimation::EyesLook1 => DmdInfo {
                name: "eyes_look_1",
                file_path: "ref/eyes_look_around_1.mp4",
                description: "Monster Bash eyes looking around animation",
                frames: 0,
            },
            DmdAnimation::EyesLook2 => DmdInfo {
                name: "eyes_look_2",
                file_path: "ref/eyes_look_2.mp4",
                description: "Monster Bash eyes looking animation",
                frames: 0,
            },
            DmdAnimation::TeethChomp => DmdInfo {
                name: "teeth_chomp",
                file_path: "ref/teeth_chomp.mp4",
                description: "Monster Bash teeth chomping animation",
                frames: 0,
            },
        }
    }

    /// Every catalogued animation, in catalogue order.
    pub fn all() -> (r: Vec<DmdAnimation>)
        ensures
            r@ == spec_all_dmds(),
    {
        let mut v: Vec<DmdAnimation> = Vec::new();
        v.push(DmdAnimation::Invader);
        v.push(DmdAnimation::Skull);
        v.push(DmdAnimation::Sword);
        v.push(DmdAnimation::EyesLook1);
        v.push(DmdAnimation::EyesLook2);
        v.push(DmdAnimation::TeethChomp);
        proof {
            assert(v@ =~= spec_all_dmds());
        }
        v
    }
}

/// The DMD animation themed for a git command: watching eyes for the read
/// commands, a pull-in for fetching commands, a victory sword for push,
/// a chomp for commit and watching eyes for merge.
pub fn git_command_to_dmd(command: &str) -> (r: Option<DmdAnimation>)
    ensures
        r == spec_git_command_to_dmd(command@),
{
    if str_eq(command, "status") || str_eq(command, "diff") || str_eq(command, "log") {
        Some(DmdAnimation::EyesLook1)
    } else if str_eq(command, "pull") || str_eq(command, "fetch") || str_eq(command, "clone") {
        Some(DmdAnimation::Skull)
    } else if str_eq(command, "push") {
        Some(DmdAnimation::Sword)
    } else if str_eq(command, "commit") {
        Some(DmdAnimation::TeethChomp)
    } else if str_eq(command, "merge") {
        Some(DmdAnimation::EyesLook2)
    } else {
        None
    }
}

/// List every catalogued DMD animation's entry, in catalogue order.
pub fn list_dmds() -> (r: Vec<DmdInfo>)
    ensures
        r@.len() == spec_all_dmds().len(),
        forall|i: int|
            0 <= i < spec_all_dmds().len() ==> {
                &&& (#[trigger] r@[i]).name@ == spec_dmd_name(spec_all_dmds()[i])
                &&& r@[i].file_path@ == spec_dmd_path(spec_all_dmds()[i])
                &&& r@[i].description@ == spec_dmd_description(spec_all_dmds()[i])
                &&& r@[i].frames == spec_dmd_frames(spec_all_dmds()[i])
            },
{
    let dmds = DmdAnimation::all();
    let mut r: Vec<DmdInfo> = Vec::new();
    let mut k: usize = 0;
    while k < dmds.len()
        invariant
            dmds@ == spec_all_dmds(),
            k <= dmds@.len(),
            r@.len() == k,
            forall|i: int|
                0 <= i < k ==> {
                    &&& (#[trigger] r@[i]).name@ == spec_dmd_name(spec_all_dmds()[i])
                    &&& r@[i].file_path@ == spec_dmd_path(spec_all_dmds()[i])
                    &&& r@[i].description@ == spec_dmd_description(spec_all_dmds()[i])
                    &&& r@[i].frames == spec_dmd_frames(spec_all_dmds()[i])
                },
        decreases dmds@.len() - k,
    {
        let info = dmds[k].info();
        r.push(info);
        k = k + 1;
    }
    r
}

/// The catalogue entry recommended for a git command, if any.
pub fn get_dmd_recommendation(command: &str) -> (r: Option<DmdInfo>)
    ensures
        (r is Some) == (spec_git_command_to_dmd(command@) is Some),
        r matches Some(info) ==> {
            &&& info.name@ == spec_dmd_name(spec_git_command_to_dmd(command@).unwrap())
            &&& info.file_path@ == spec_dmd_path(spec_git_command_to_dmd(command@).unwrap())
            &&& info.description@ == spec_dmd_description(spec_git_command_to_dmd(command@).unwrap())
            &&& info.frames == spec_dmd_frames(spec_git_command_to_dmd(command@).unwrap())
        },
{
    match git_command_to_dmd(command) {
        Some(dmd) => Some(dmd.info()),
        None => None,
    }
}

} // verus!
