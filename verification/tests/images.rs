use quoteme::images::{
    fit_crop, groups_from, is_screenshot_name, label_from, load_groups, point_from_lparam,
    selected_part, selection_to_crop, wrap, CropRect, DisplayRect, EditorAction, EditorState, FoundDir, FoundFile,
    LabelledDir, Point,
};
use quoteme::replace::{first_step, next_step, ReplaceStep};

fn file(name: &str) -> FoundFile<String> {
    FoundFile { name: name.to_string(), path: format!("/p/{}", name) }
}

fn dir(label: &str, names: &[&str]) -> LabelledDir<String> {
    LabelledDir { label: label.to_string(), files: names.iter().map(|n| file(n)).collect() }
}

fn editor() -> EditorState<String> {
    let groups = groups_from(vec![
        dir("one", &["screenshot-001.png", "screenshot-002.png", "screenshot-003.png"]),
        dir("two", &["screenshot-001.png"]),
    ]);
    EditorState::new(groups, "/h")
}

fn shown(e: &EditorState<String>) -> String {
    e.header_text("100")
}

const H: u32 = 0x48;
const J: u32 = 0x4a;
const K: u32 = 0x4b;
const L: u32 = 0x4c;
const S: u32 = 0x53;
const ENTER: u32 = 0x0d;
const ESCAPE: u32 = 0x1b;

#[test]
fn names_of_screenshots() {
    assert!(is_screenshot_name("screenshot-001.png"));
    assert!(is_screenshot_name("screenshot-.png"));
    assert!(!is_screenshot_name("screenshot-001.jpg"));
    assert!(!is_screenshot_name("a-screenshot-001.png"));
}

#[test]
fn groups_are_sorted_and_empty_ones_left_out() {
    let groups = groups_from(vec![
        dir("2024-01-01", &["screenshot-002.png", "audio.wav", "screenshot-001.png"]),
        dir("2024-03-01", &["audio.wav"]),
        dir("2024-02-01", &["screenshot-001.png"]),
    ]);
    let labels: Vec<&str> = groups.iter().map(|g| g.label.as_str()).collect();
    assert_eq!(labels, vec!["2024-02-01", "2024-01-01"]);
    let paths: Vec<&str> = groups[1].images.iter().map(|i| i.path.as_str()).collect();
    assert_eq!(paths, vec!["/p/screenshot-001.png", "/p/screenshot-002.png"]);
    assert!(groups[1].images.iter().all(|i| i.crop.is_none()));
}

#[test]
fn labels_come_from_the_metadata() {
    let found = |name: &str, metadata: Option<&str>| FoundDir {
        name: name.to_string(),
        metadata: metadata.map(|m| m.to_string()),
        files: vec![file("screenshot-001.png")],
    };
    let groups = load_groups(vec![
        found("b", None),
        found("c", Some("no json")),
        found("d", Some("{\"timestamp\": 5}")),
        found("e", Some("{\"timestamp\": \"a long time ago\"}")),
        found("f", Some("{\"timestamp\": \"2024-05-06T07:08:09Z\"}")),
    ]);
    let labels: Vec<&str> = groups.iter().map(|g| g.label.as_str()).collect();
    assert_eq!(labels[..4], ["d", "c", "b", "a long time ago"]);
    assert!(labels[4].starts_with("2024-05-0") && labels[4].ends_with(":09"));
    assert_eq!(label_from(Some("x".to_string()), "y".to_string()), "x");
    assert_eq!(label_from(None, "y".to_string()), "y");
}

#[test]
fn wrapping_around_the_ends() {
    assert_eq!(wrap(0, -1, 3), 2);
    assert_eq!(wrap(2, 1, 3), 0);
    assert_eq!(wrap(1, 1, 3), 2);
    assert_eq!(wrap(0, i32::MIN, 7), 5);
    assert_eq!(wrap(usize::MAX, i32::MAX, 1), 0);
}

#[test]
fn keys_move_between_screenshots_and_transcripts() {
    let mut e = editor();
    assert_eq!(
        shown(&e),
        "Transcript 1/2: two    Image 1/1    Zoom 100%    0 crop(s) queued"
    );
    assert_eq!(e.handle_key(J, false), EditorAction::ResetView);
    assert_eq!(
        shown(&e),
        "Transcript 2/2: one    Image 1/3    Zoom 100%    0 crop(s) queued"
    );
    e.handle_key(L, false);
    assert_eq!(e.current().unwrap().path, "/p/screenshot-002.png");
    e.handle_key(H, false);
    e.handle_key(H, false);
    assert_eq!(e.current().unwrap().path, "/p/screenshot-003.png");
    e.handle_key(K, false);
    assert!(shown(&e).starts_with("Transcript 1/2"));
    assert_eq!(e.handle_key(0xbb, false), EditorAction::ZoomIn);
    assert_eq!(e.handle_key(0x6d, false), EditorAction::ZoomOut);
    assert_eq!(e.handle_key(0x41, false), EditorAction::Nothing);
}

#[test]
fn without_screenshots_keys_do_nothing() {
    let mut e: EditorState<String> = EditorState::new(Vec::new(), "/h");
    assert_eq!(e.status(), "No screenshots found under /h");
    assert_eq!(shown(&e), "QuoteMe screenshots");
    assert_eq!(e.handle_key(L, false), EditorAction::Nothing);
    assert_eq!(e.handle_key(J, false), EditorAction::Nothing);
    assert_eq!(e.handle_key(S, true), EditorAction::Nothing);
    assert!(e.current().is_none());
    assert!(e.pending().is_empty());
    assert_eq!(e.handle_key(ESCAPE, false), EditorAction::Quit);
}

#[test]
fn dragging_selects_and_escape_clears() {
    let mut e = editor();
    let a = Point { x: 1, y: 2 };
    let b = Point { x: 9, y: 8 };
    assert!(!e.drag(b));
    assert_eq!(e.selection(), None);
    e.press(a);
    assert_eq!(e.selection(), Some((a, a)));
    assert!(e.drag(b));
    e.release(b);
    assert_eq!(e.selection(), Some((a, b)));
    e.release(a);
    assert_eq!(e.selection(), Some((a, b)));
    assert_eq!(e.handle_key(ENTER, false), EditorAction::AcceptCrop(a, b));
    assert_eq!(e.handle_key(ESCAPE, false), EditorAction::Nothing);
    assert_eq!(e.selection(), None);
    assert_eq!(e.handle_key(ENTER, false), EditorAction::Nothing);
    assert_eq!(e.handle_key(ESCAPE, false), EditorAction::Quit);
}

#[test]
fn crops_are_queued_and_saved_as_a_batch() {
    let crop = CropRect { x: 1, y: 2, width: 30, height: 40 };
    let mut e = editor();
    e.handle_key(J, false);
    e.queue_crop(crop);
    assert_eq!(e.status(), "Crop queued: 30×40");
    e.handle_key(L, false);
    e.queue_crop(crop);
    assert!(shown(&e).contains("Image 1/3"));
    assert!(shown(&e).ends_with("2 crop(s) queued"));
    assert_eq!(e.pending(), vec![0, 2]);
    assert_eq!(e.next_to_save(0, false), Some(0));
    assert_eq!(e.next_to_save(1, false), Some(2));
    assert_eq!(e.next_to_save(2, false), None);
    assert_eq!(e.next_to_save(1, true), None);
    assert_eq!(e.image_at(2).unwrap().crop, Some(crop));
    assert!(e.image_at(3).is_none());
    assert_eq!(e.handle_key(S, false), EditorAction::Nothing);
    assert_eq!(e.handle_key(S, true), EditorAction::SaveBatch);

    e.finish_save(1, Some(("/p/screenshot-003.png".to_string(), "disk full".to_string())));
    assert_eq!(e.status(), "Save failed for /p/screenshot-003.png: disk full");
    assert_eq!(e.pending(), vec![2]);
    e.press(Point { x: 0, y: 0 });
    e.finish_save(1, None);
    assert_eq!(e.status(), "Saved 1 cropped image(s) in this transcript.");
    assert!(e.pending().is_empty());
    assert_eq!(e.selection(), None);
    e.set_status("x".to_string());
    assert_eq!(e.status(), "x");
}

#[test]
fn selections_are_cut_to_the_picture() {
    let display = DisplayRect { left: 10, top: 20, right: 110, bottom: 120 };
    let a = Point { x: 200, y: 50 };
    let b = Point { x: 0, y: 40 };
    let part = selected_part(&a, &b, &display).unwrap();
    assert_eq!((part.left, part.top, part.right, part.bottom), (10, 40, 110, 50));
    assert!(selected_part(&a, &Point { x: 199, y: 0 }, &display).is_none());
    assert!(selected_part(&Point { x: 10, y: 20 }, &Point { x: 12, y: 90 }, &display).is_none());
    assert!(selected_part(&Point { x: 10, y: 20 }, &Point { x: 13, y: 23 }, &display).is_some());
}

#[test]
fn crops_stay_in_the_picture() {
    let crop = CropRect { x: 90, y: 0, width: 20, height: 5 };
    assert_eq!(fit_crop(&crop, 100, 50), Some(CropRect { width: 10, ..crop }));
    assert_eq!(fit_crop(&CropRect { x: 100, ..crop }, 100, 50), None);
    assert_eq!(fit_crop(&CropRect { height: 0, ..crop }, 100, 50), None);
}

#[test]
fn a_selection_becomes_a_crop_from_any_corners() {
    let display = DisplayRect { left: 100, top: 50, right: 300, bottom: 150 };
    let double = |part: DisplayRect| CropRect {
        x: (part.left - 100) as u32 * 2,
        y: (part.top - 50) as u32 * 2,
        width: (part.right - part.left) as u32 * 2,
        height: (part.bottom - part.top) as u32 * 2,
    };
    let expected = CropRect { x: 20, y: 40, width: 60, height: 80 };
    let corners = [(110, 70, 140, 110), (140, 110, 110, 70), (140, 70, 110, 110), (110, 110, 140, 70)];
    for (ax, ay, bx, by) in corners {
        let (a, b) = (Point { x: ax, y: ay }, Point { x: bx, y: by });
        assert_eq!(selection_to_crop(&a, &b, &display, 400, 200, double), Some(expected));
    }
    // Cut off at the edge of the picture.
    let (a, b) = (Point { x: 290, y: 140 }, Point { x: 9_999, y: 9_999 });
    assert_eq!(
        selection_to_crop(&a, &b, &display, 395, 200, double),
        Some(CropRect { x: 380, y: 180, width: 15, height: 20 })
    );
    // Too small, outside, or nothing left after scaling.
    let near = Point { x: 292, y: 142 };
    assert_eq!(selection_to_crop(&a, &near, &display, 400, 200, double), None);
    let (c, d) = (Point { x: 0, y: 0 }, Point { x: 90, y: 40 });
    assert_eq!(selection_to_crop(&c, &d, &display, 400, 200, double), None);
    let nothing = |_: DisplayRect| CropRect { x: 0, y: 0, width: 0, height: 9 };
    assert_eq!(selection_to_crop(&a, &b, &display, 400, 200, nothing), None);
}

#[test]
fn mouse_positions_are_signed() {
    assert_eq!(point_from_lparam(0x0005_0003), Point { x: 3, y: 5 });
    assert_eq!(point_from_lparam(0xffff_8000), Point { x: -32768, y: -1 });
    assert_eq!(point_from_lparam(0xabcd_7fff_7fff), Point { x: 32767, y: 32767 });
}

/// The steps that are gone through when one of them, counted from 0, fails.
fn steps_with_failure(at: usize) -> Vec<ReplaceStep> {
    let mut steps = vec![first_step()];
    loop {
        let step = *steps.last().unwrap();
        if step == ReplaceStep::Replaced || step == ReplaceStep::Kept {
            return steps;
        }
        let worked = steps.len() - 1 != at;
        steps.push(next_step(step, worked));
    }
}

#[test]
fn pictures_are_replaced_step_by_step() {
    assert_eq!(
        steps_with_failure(99),
        vec![
            ReplaceStep::WriteTemporary,
            ReplaceStep::DropStaleBackup,
            ReplaceStep::SetAside,
            ReplaceStep::MoveIn,
            ReplaceStep::Forget,
            ReplaceStep::Replaced,
        ]
    );
    assert_eq!(
        steps_with_failure(3),
        vec![
            ReplaceStep::WriteTemporary,
            ReplaceStep::DropStaleBackup,
            ReplaceStep::SetAside,
            ReplaceStep::MoveIn,
            ReplaceStep::PutBack,
            ReplaceStep::Kept,
        ]
    );
    assert_eq!(steps_with_failure(0), vec![ReplaceStep::WriteTemporary, ReplaceStep::Kept]);
    assert_eq!(steps_with_failure(2).last(), Some(&ReplaceStep::Kept));
    assert_eq!(steps_with_failure(4).last(), Some(&ReplaceStep::Replaced));
}

#[test]
fn a_picture_is_never_lost() {
    // Every way in which steps can fail.
    for failures in 0..64_u32 {
        let mut picture = Some("whole");
        let mut temporary = None;
        let mut backup = Some("stale");
        let mut step = first_step();
        let mut turn = 0;
        while step != ReplaceStep::Replaced && step != ReplaceStep::Kept {
            let worked = failures & (1 << turn) == 0;
            if worked {
                match step {
                    ReplaceStep::WriteTemporary => temporary = Some("crop"),
                    ReplaceStep::DropStaleBackup => backup = None,
                    ReplaceStep::SetAside => backup = picture.take(),
                    ReplaceStep::MoveIn => picture = temporary.take(),
                    ReplaceStep::PutBack => picture = backup.take(),
                    ReplaceStep::Forget => backup = None,
                    ReplaceStep::Replaced | ReplaceStep::Kept => {}
                }
            }
            step = next_step(step, worked);
            turn += 1;
            assert!(
                picture == Some("whole") || picture == Some("crop") || backup == Some("whole")
            );
        }
        assert_eq!(step == ReplaceStep::Replaced, picture == Some("crop"));
    }
}

#[test]
fn going_round_shows_every_screenshot() {
    let mut e = editor();
    e.handle_key(J, false);
    let mut seen = Vec::new();
    for _ in 0..3 {
        seen.push(e.current().unwrap().path.clone());
        e.handle_key(L, false);
    }
    seen.dedup();
    assert_eq!(seen.len(), 3);
    assert_eq!(e.current().unwrap().path, seen[0]);
    e.handle_key(L, false);
    e.handle_key(H, false);
    assert_eq!(e.current().unwrap().path, seen[0]);
}
