use crabcrust::dmd_library::DmdAnimation;
use crabcrust::dmd_library::MediaKind;
use crabcrust::dmd_library::get_dmd_recommendation;
use crabcrust::dmd_library::git_command_to_dmd;
use crabcrust::dmd_library::list_dmds;
use crabcrust::dmd_library::media_kind_of_path;

#[test]
fn test_git_command_mapping() {
    assert!(matches!(git_command_to_dmd("status"), Some(DmdAnimation::EyesLook1)));
    assert!(matches!(git_command_to_dmd("push"), Some(DmdAnimation::Sword)));
    assert!(matches!(git_command_to_dmd("pull"), Some(DmdAnimation::Skull)));
    assert!(matches!(git_command_to_dmd("commit"), Some(DmdAnimation::TeethChomp)));
    assert!(matches!(git_command_to_dmd("merge"), Some(DmdAnimation::EyesLook2)));
    assert!(git_command_to_dmd("unknown").is_none());
}

#[test]
fn test_list_dmds() {
    let dmds = list_dmds();
    assert_eq!(dmds.len(), 6);
    assert!(dmds.iter().any(|d| d.name == "invader"));
    assert!(dmds.iter().any(|d| d.name == "skull"));
    assert!(dmds.iter().any(|d| d.name == "sword"));
    assert!(dmds.iter().any(|d| d.name == "eyes_look_1"));
    assert!(dmds.iter().any(|d| d.name == "eyes_look_2"));
    assert!(dmds.iter().any(|d| d.name == "teeth_chomp"));
}

#[test]
fn test_dmd_info() {
    let invader = DmdAnimation::Invader.info();
    assert_eq!(invader.name, "invader");
    assert_eq!(invader.frames, 38);
    assert!(invader.file_path.contains("invader"));
}

#[test]
fn test_recommendation_matches_mapping() {
    let rec = get_dmd_recommendation("push").unwrap();
    assert_eq!(rec.name, "sword");
    assert_eq!(rec.frames, 42);
    assert!(get_dmd_recommendation("rebase").is_none());
}

#[test]
fn test_media_kind_by_extension() {
    assert_eq!(media_kind_of_path("ref/dmd_invader.gif"), MediaKind::Gif);
    assert_eq!(media_kind_of_path("ref/teeth_chomp.mp4"), MediaKind::Video);
    assert_eq!(media_kind_of_path("notes.txt"), MediaKind::Unsupported);
    assert_eq!(media_kind_of_path("gif"), MediaKind::Unsupported);
}
