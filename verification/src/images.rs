//! Reviewing screenshots: grouping them by transcript, moving between them,
//! selecting crops and saving them.

use crate::moments::{is_shown_local, show_local};
use crate::numbers::{decimal, to_decimal};
use crate::pieces::{ends_with, has_prefix, has_suffix, law_prefix_and_suffix, starts_with};
use crate::sorting::{
    is_sorting, lemma_text_leads_is_total, lemma_text_leads_is_transitive, sort, text_leads,
    text_may_lead, Ranked,
};
use crate::text::text_in;
use vstd::arithmetic::div_mod::lemma_mod_multiples_vanish;
use vstd::prelude::*;

verus! {

/// Height of the header above the picture.
pub const HEADER_HEIGHT: i32 = 78;

/// A part of a picture.
#[derive(Clone, Copy, Debug, PartialEq, Eq, Structural)]
pub struct CropRect {
    pub x: u32,
    pub y: u32,
    pub width: u32,
    pub height: u32,
}

/// A point in the window.
#[derive(Clone, Copy, Debug, PartialEq, Eq, Structural)]
pub struct Point {
    pub x: i32,
    pub y: i32,
}

/// The part of the window that shows the picture.
#[derive(Clone, Copy, Debug)]
pub struct DisplayRect {
    pub left: i32,
    pub top: i32,
    pub right: i32,
    pub bottom: i32,
}

/// A screenshot at a path of type `P`, with the crop queued for it.
#[derive(Debug)]
pub struct ImageItem<P> {
    pub path: P,
    pub crop: Option<CropRect>,
}

/// The screenshots of one transcript.
#[derive(Debug)]
pub struct Group<P> {
    pub label: String,
    pub images: Vec<ImageItem<P>>,
}

/// The values of a [`Group`].
#[verifier::ext_equal]
pub ghost struct GroupView<P> {
    pub label: Seq<char>,
    pub images: Seq<ImageItem<P>>,
}

impl<P> View for Group<P> {
    type V = GroupView<P>;

    open spec fn view(&self) -> GroupView<P> {
        GroupView { label: self.label@, images: self.images@ }
    }
}

/// The views of a list of groups.
pub open spec fn group_views<P>(v: Seq<Group<P>>) -> Seq<GroupView<P>> {
    v.map_values(|g: Group<P>| g@)
}

// ---------------------------------------------------------------------------
// Grouping
// ---------------------------------------------------------------------------

/// The name of a screenshot's file.
pub open spec fn is_screenshot(name: Seq<char>) -> bool {
    has_prefix(name, "screenshot-"@) && has_suffix(name, ".png"@)
}

/// Whether this is the name of a screenshot's file.
pub fn is_screenshot_name(name: &str) -> (r: bool)
    ensures
        r == is_screenshot(name@),
{
    starts_with(name, "screenshot-") && ends_with(name, ".png")
}

/// A file in a transcript's directory.
#[derive(Debug)]
pub struct FoundFile<P> {
    pub name: String,
    pub path: P,
}

/// Files are listed by name.
impl<P> Ranked for FoundFile<P> {
    open spec fn leads(&self, other: &Self) -> bool {
        text_leads(self.name@, other.name@)
    }

    proof fn leads_is_total(a: &Self, b: &Self) {
        lemma_text_leads_is_total(a.name@, b.name@);
    }

    proof fn leads_is_transitive(a: &Self, b: &Self, c: &Self) {
        lemma_text_leads_is_transitive(a.name@, b.name@, c.name@);
    }

    fn may_lead(&self, other: &Self) -> (r: bool) {
        text_may_lead(self.name.as_str(), other.name.as_str())
    }
}

/// Groups are listed by label, backwards.
impl<P> Ranked for Group<P> {
    open spec fn leads(&self, other: &Self) -> bool {
        text_leads(other.label@, self.label@)
    }

    proof fn leads_is_total(a: &Self, b: &Self) {
        lemma_text_leads_is_total(a.label@, b.label@);
    }

    proof fn leads_is_transitive(a: &Self, b: &Self, c: &Self) {
        lemma_text_leads_is_transitive(c.label@, b.label@, a.label@);
    }

    fn may_lead(&self, other: &Self) -> (r: bool) {
        text_may_lead(other.label.as_str(), self.label.as_str())
    }
}

/// A transcript's directory: its label and its files.
#[derive(Debug)]
pub struct LabelledDir<P> {
    pub label: String,
    pub files: Vec<FoundFile<P>>,
}

/// Those of the files that are screenshots.
pub open spec fn screenshots<P>(files: Seq<FoundFile<P>>) -> Seq<FoundFile<P>>
    decreases files.len(),
{
    if files.len() == 0 {
        Seq::empty()
    } else {
        let before = screenshots(files.drop_last());
        if is_screenshot(files.last().name@) {
            before.push(files.last())
        } else {
            before
        }
    }
}

/// Screenshots without crops.
pub open spec fn uncropped<P>(files: Seq<FoundFile<P>>) -> Seq<ImageItem<P>> {
    files.map_values(|f: FoundFile<P>| ImageItem { path: f.path, crop: None })
}

/// The group holds the directory's screenshots, by name.
pub open spec fn is_group_of<P>(dir: LabelledDir<P>, group: Group<P>) -> bool {
    &&& group.label@ == dir.label@
    &&& exists|sorted: Seq<FoundFile<P>>|
        #[trigger] is_sorting(screenshots(dir.files@), sorted) && group.images@ == uncropped(sorted)
}

/// `groups` holds one group for each directory that has screenshots.
pub open spec fn are_groups_of<P>(dirs: Seq<LabelledDir<P>>, groups: Seq<Group<P>>) -> bool
    decreases dirs.len(),
{
    if dirs.len() == 0 {
        groups.len() == 0
    } else if screenshots(dirs.last().files@).len() == 0 {
        are_groups_of(dirs.drop_last(), groups)
    } else {
        &&& groups.len() > 0
        &&& is_group_of(dirs.last(), groups.last())
        &&& are_groups_of(dirs.drop_last(), groups.drop_last())
    }
}

/// The screenshots of one directory, by name.
fn images_in<P>(files: Vec<FoundFile<P>>) -> (r: Vec<ImageItem<P>>)
    ensures
        exists|sorted: Seq<FoundFile<P>>|
            #[trigger] is_sorting(screenshots(files@), sorted) && r@ == uncropped(sorted),
{
    let mut kept: Vec<FoundFile<P>> = Vec::new();
    let ghost all = files@;
    for file in it: files
        invariant
            it.seq() == all,
            kept@ == screenshots(all.take(it.index())),
    {
        assert(all.take(it.index() + 1).drop_last() =~= all.take(it.index()));
        if is_screenshot_name(file.name.as_str()) {
            kept.push(file);
        }
    }
    assert(all.take(all.len() as int) =~= all);
    let sorted = sort(kept);
    let ghost order = sorted@;
    let mut r: Vec<ImageItem<P>> = Vec::new();
    for file in it: sorted
        invariant
            it.seq() == order,
            r@ =~= uncropped(order).take(it.index()),
    {
        r.push(ImageItem { path: file.path, crop: None });
    }
    assert(r@ =~= uncropped(order));
    r
}

/// The groups of the directories that have screenshots, the latest label
/// first.
pub fn groups_from<P>(dirs: Vec<LabelledDir<P>>) -> (r: Vec<Group<P>>)
    ensures
        exists|groups: Seq<Group<P>>|
            #[trigger] are_groups_of(dirs@, groups) && is_sorting(groups, r@),
        all_have_images(group_views(r@)),
{
    let ghost all = dirs@;
    let mut groups: Vec<Group<P>> = Vec::new();
    for dir in it: dirs
        invariant
            it.seq() == all,
            are_groups_of(all.take(it.index()), groups@),
    {
        let ghost before = groups@;
        let ghost here = dir;
        assert(all.take(it.index() + 1).drop_last() =~= all.take(it.index()));
        assert(all.take(it.index() + 1).last() == here);
        let LabelledDir { label, files } = dir;
        let images = images_in(files);
        proof {
            let sorted = choose|sorted: Seq<FoundFile<P>>|
                #[trigger] is_sorting(screenshots(here.files@), sorted) && images@ == uncropped(
                    sorted,
                );
            crate::sorting::law_sorting_keeps_values(screenshots(here.files@), sorted);
        }
        if images.len() > 0 {
            groups.push(Group { label, images });
            assert(groups@.drop_last() =~= before);
            assert(is_group_of(here, groups@.last()));
        }
    }
    assert(all.take(all.len() as int) =~= all);
    let ghost found = groups@;
    proof {
        lemma_groups_have_images(all, found);
    }
    let r = sort(groups);
    proof {
        crate::sorting::law_sorting_keeps_values(found, r@);
        assert forall|i: int| 0 <= i < group_views(r@).len() implies (#[trigger] group_views(
            r@,
        )[i]).images.len() > 0 by {
            assert(r@.contains(r@[i]));
            let k = choose|k: int| 0 <= k < found.len() && found[k] == r@[i];
            assert(found[k].images@.len() > 0);
        }
    }
    r
}

proof fn lemma_groups_have_images<P>(dirs: Seq<LabelledDir<P>>, groups: Seq<Group<P>>)
    requires
        are_groups_of(dirs, groups),
    ensures
        forall|k: int| 0 <= k < groups.len() ==> (#[trigger] groups[k]).images@.len() > 0,
    decreases dirs.len(),
{
    if dirs.len() > 0 {
        if screenshots(dirs.last().files@).len() == 0 {
            lemma_groups_have_images(dirs.drop_last(), groups);
        } else {
            let rest = groups.drop_last();
            lemma_groups_have_images(dirs.drop_last(), rest);
            let sorted = choose|sorted: Seq<FoundFile<P>>|
                #[trigger] is_sorting(screenshots(dirs.last().files@), sorted)
                    && groups.last().images@ == uncropped(sorted);
            crate::sorting::law_sorting_keeps_values(screenshots(dirs.last().files@), sorted);
            assert forall|k: int| 0 <= k < groups.len() implies (#[trigger] groups[k]).images@.len()
                > 0 by {
                if k < rest.len() {
                    assert(rest[k] == groups[k]);
                }
            }
        }
    }
}

/// The text under a key of the object that a JSON text holds; `None` if the
/// text is no JSON, or there is no text under that key.
pub uninterp spec fn json_text(raw: Seq<char>, key: Seq<char>) -> Option<Seq<char>>;

/// `serde_json::from_str` to a `serde_json::Value`, then `Value::as_str` of
/// what stands under the key. It is claimed that the result depends on the text
/// and the key alone.
#[verifier::external_body]
fn read_json_text(raw: &str, key: &str) -> (r: Option<String>)
    ensures
        text_in(r) == json_text(raw@, key@),
{
    match serde_json::from_str::<serde_json::Value>(raw) {
        Ok(value) => value[key].as_str().map(str::to_string),
        Err(_) => None,
    }
}

/// A transcript's directory as it was found: its name, the contents of its
/// metadata file and its files.
#[derive(Debug)]
pub struct FoundDir<P> {
    pub name: String,
    pub metadata: Option<String>,
    pub files: Vec<FoundFile<P>>,
}

/// When the transcript was made, as its metadata says.
pub open spec fn written_time(metadata: Option<Seq<char>>) -> Option<Seq<char>> {
    match metadata {
        Some(raw) => json_text(raw, "timestamp"@),
        None => None,
    }
}

/// The label is the time that the metadata gives, in the time zone of the
/// machine; as it is written if it is no RFC 3339 time; and the directory's
/// name if there is none.
pub open spec fn is_label_of<P>(dir: FoundDir<P>, label: Seq<char>) -> bool {
    match written_time(text_in(dir.metadata)) {
        Some(time) => is_shown_local(time, label),
        None => label == dir.name@,
    }
}

/// The label of a transcript, given its time as shown.
pub fn label_from(shown: Option<String>, name: String) -> (r: String)
    ensures
        r@ == match text_in(shown) {
            Some(t) => t,
            None => name@,
        },
{
    match shown {
        Some(t) => t,
        None => name,
    }
}

/// Gives a directory its label.
fn labelled<P>(dir: FoundDir<P>) -> (r: LabelledDir<P>)
    ensures
        is_label_of(dir, r.label@),
        r.files == dir.files,
{
    let FoundDir { name, metadata, files } = dir;
    let written = match metadata {
        Some(raw) => read_json_text(raw.as_str(), "timestamp"),
        None => None,
    };
    let shown = match written {
        Some(time) => Some(show_local(time.as_str())),
        None => None,
    };
    LabelledDir { label: label_from(shown, name), files }
}

/// The groups of the directories found in the history that have screenshots,
/// the latest first.
pub fn load_groups<P>(dirs: Vec<FoundDir<P>>) -> (r: Vec<Group<P>>)
    ensures
        exists|all: Seq<LabelledDir<P>>, groups: Seq<Group<P>>|
            {
                &&& all.len() == dirs@.len()
                &&& forall|i: int|
                    0 <= i < all.len() ==> is_label_of(dirs@[i], (#[trigger] all[i]).label@)
                        && all[i].files == dirs@[i].files
                &&& #[trigger] are_groups_of(all, groups)
                &&& is_sorting(groups, r@)
            },
        all_have_images(group_views(r@)),
{
    let ghost found = dirs@;
    let mut all: Vec<LabelledDir<P>> = Vec::new();
    for dir in it: dirs
        invariant
            it.seq() == found,
            all@.len() == it.index(),
            forall|i: int|
                0 <= i < all@.len() ==> is_label_of(found[i], (#[trigger] all@[i]).label@)
                    && all@[i].files == found[i].files,
    {
        all.push(labelled(dir));
    }
    groups_from(all)
}

// ---------------------------------------------------------------------------
// The state of the editor
// ---------------------------------------------------------------------------

/// What the editor shows and what it is asked to do. How large the picture is
/// shown is kept apart.
#[derive(Debug)]
pub struct EditorState<P> {
    groups: Vec<Group<P>>,
    group: usize,
    image: usize,
    drag_start: Option<Point>,
    selection: Option<(Point, Point)>,
    status: String,
}

/// The values of an [`EditorState`].
#[verifier::ext_equal]
pub ghost struct EditorView<P> {
    pub groups: Seq<GroupView<P>>,
    pub group: int,
    pub image: int,
    pub drag_start: Option<Point>,
    pub selection: Option<(Point, Point)>,
    pub status: Seq<char>,
}

impl<P> View for EditorState<P> {
    type V = EditorView<P>;

    closed spec fn view(&self) -> EditorView<P> {
        EditorView {
            groups: group_views(self.groups@),
            group: self.group as int,
            image: self.image as int,
            drag_start: self.drag_start,
            selection: self.selection,
            status: self.status@,
        }
    }
}

/// What there is left to do after a key.
#[derive(Clone, Copy, Debug, PartialEq, Eq, Structural)]
pub enum EditorAction {
    Nothing,
    /// Show the picture in its own size and read it again.
    ResetView,
    ZoomIn,
    ZoomOut,
    /// Turn this selection into a crop.
    AcceptCrop(Point, Point),
    SaveBatch,
    Quit,
}

/// No group is empty.
pub open spec fn all_have_images<P>(groups: Seq<GroupView<P>>) -> bool {
    forall|i: int| 0 <= i < groups.len() ==> (#[trigger] groups[i]).images.len() > 0
}

/// One place further or back, around the end.
pub open spec fn wrapped(index: int, delta: int, count: int) -> int {
    (index + delta) % count
}

impl<P> EditorView<P> {
    /// The editor shows a screenshot, if there is any.
    pub open spec fn wf(self) -> bool {
        &&& all_have_images(self.groups)
        &&& self.groups.len() > 0 ==> 0 <= self.group < self.groups.len()
        &&& self.groups.len() > 0 ==> 0 <= self.image < self.images().len()
    }

    /// The editor as it opens on those groups. `history` is where they were
    /// looked for.
    pub open spec fn opened(groups: Seq<GroupView<P>>, history: Seq<char>) -> EditorView<P> {
        EditorView {
            groups,
            group: 0,
            image: 0,
            drag_start: None,
            selection: None,
            status: if groups.len() == 0 {
                "No screenshots found under "@ + history
            } else {
                "Drag to select a crop, then Enter to queue it and advance."@
            },
        }
    }

    /// The screenshot at a place of the group that is shown.
    pub open spec fn shown_at(self, place: int) -> Option<ImageItem<P>> {
        if self.groups.len() == 0 || place >= self.images().len() {
            None
        } else {
            Some(self.images()[place])
        }
    }

    /// The screenshots of the group that is shown.
    pub open spec fn images(self) -> Seq<ImageItem<P>> {
        self.groups[self.group].images
    }

    /// Nothing is selected.
    pub open spec fn unselected(self) -> EditorView<P> {
        EditorView { drag_start: None, selection: None, ..self }
    }

    /// Another screenshot of the group is shown.
    pub open spec fn at_image(self, delta: int) -> EditorView<P> {
        if self.groups.len() == 0 {
            self
        } else {
            EditorView {
                image: wrapped(self.image, delta, self.images().len() as int),
                ..self.unselected()
            }
        }
    }

    /// The first screenshot of another group is shown.
    pub open spec fn at_group(self, delta: int) -> EditorView<P> {
        if self.groups.len() == 0 {
            self
        } else {
            EditorView {
                group: wrapped(self.group, delta, self.groups.len() as int),
                image: 0,
                ..self.unselected()
            }
        }
    }

    /// The state with those screenshots in the group that is shown.
    pub open spec fn with_images(self, images: Seq<ImageItem<P>>) -> EditorView<P> {
        let group = GroupView { images, ..self.groups[self.group] };
        EditorView { groups: self.groups.update(self.group, group), ..self }
    }

    /// A key that moves has been pressed.
    pub open spec fn moved(self) -> EditorAction {
        if self.groups.len() == 0 {
            EditorAction::Nothing
        } else {
            EditorAction::ResetView
        }
    }

    /// The state after a key, and what there is left to do.
    pub open spec fn after_key(self, key: u32, ctrl: bool) -> (EditorView<P>, EditorAction) {
        if key == 0x48 {
            (self.at_image(-1), self.moved())
        } else if key == 0x4c {
            (self.at_image(1), self.moved())
        } else if key == 0x4a {
            (self.at_group(1), self.moved())
        } else if key == 0x4b {
            (self.at_group(-1), self.moved())
        } else if key == 0x6b || key == 0xbb {
            (self, EditorAction::ZoomIn)
        } else if key == 0x6d || key == 0xbd {
            (self, EditorAction::ZoomOut)
        } else if key == 0x0d {
            match self.selection {
                Some((a, b)) => (self, EditorAction::AcceptCrop(a, b)),
                None => (self, EditorAction::Nothing),
            }
        } else if key == 0x1b {
            if self.selection is Some {
                (EditorView { selection: None, ..self }, EditorAction::Nothing)
            } else {
                (self, EditorAction::Quit)
            }
        } else if key == 0x53 && ctrl && self.groups.len() > 0 {
            (self, EditorAction::SaveBatch)
        } else {
            (self, EditorAction::Nothing)
        }
    }

    /// A crop is queued for the screenshot that is shown, and the next one is
    /// shown.
    pub open spec fn with_crop(self, crop: CropRect) -> EditorView<P> {
        if self.groups.len() == 0 {
            self
        } else {
            let item = ImageItem { crop: Some(crop), ..self.images()[self.image] };
            let cropped = self.with_images(self.images().update(self.image, item));
            EditorView { status: crop_status(crop), ..cropped.at_image(1) }
        }
    }

    /// The mouse button goes down.
    pub open spec fn after_press(self, at: Point) -> EditorView<P> {
        EditorView { drag_start: Some(at), selection: Some((at, at)), ..self }
    }

    /// The mouse moves.
    pub open spec fn after_move(self, at: Point) -> EditorView<P> {
        match self.drag_start {
            Some(start) => EditorView { selection: Some((start, at)), ..self },
            None => self,
        }
    }

    /// The mouse button goes up.
    pub open spec fn after_release(self, at: Point) -> EditorView<P> {
        EditorView { drag_start: None, ..self.after_move(at) }
    }

    /// The first `saved` of the queued crops have been saved, and one could
    /// not be, if there is a failure: its path and the error.
    pub open spec fn after_save(
        self,
        saved: int,
        failure: Option<(Seq<char>, Seq<char>)>,
    ) -> EditorView<P> {
        let cleared = self.with_images(without_crops(self.images(), saved));
        match failure {
            Some((path, error)) => EditorView {
                status: "Save failed for "@ + path + ": "@ + error,
                ..cleared
            },
            None => EditorView {
                selection: None,
                status: "Saved "@ + decimal(saved as nat)
                    + " cropped image(s) in this transcript."@,
                ..cleared
            },
        }
    }
}

/// What the user is told of a queued crop.
pub open spec fn crop_status(crop: CropRect) -> Seq<char> {
    "Crop queued: "@ + decimal(crop.width as nat) + "×"@ + decimal(crop.height as nat)
}

/// How many crops are queued.
pub open spec fn queued<P>(images: Seq<ImageItem<P>>) -> nat
    decreases images.len(),
{
    if images.len() == 0 {
        0
    } else {
        queued(images.drop_last()) + (if images.last().crop is Some {
            1nat
        } else {
            0nat
        })
    }
}

/// The screenshots without the first `n` of their crops.
pub open spec fn without_crops<P>(images: Seq<ImageItem<P>>, n: int) -> Seq<ImageItem<P>> {
    Seq::new(
        images.len(),
        |i: int|
            if queued(images.take(i)) < n {
                ImageItem { crop: None, ..images[i] }
            } else {
                images[i]
            },
    )
}

/// One place further or back, around the end.
pub fn wrap(index: usize, delta: i32, count: usize) -> (r: usize)
    requires
        count > 0,
    ensures
        r == wrapped(index as int, delta as int, count as int),
        r < count,
{
    let n: i128 = count as i128;
    // A multiple of the count that makes every sum positive.
    let turns: i128 = 0x8000_0000;
    assert(0 <= n * turns <= 0x1_0000_0000_0000_0000 * 0x8000_0000 && n * turns >= turns)
        by (nonlinear_arith)
        requires
            1 <= n <= 0x1_0000_0000_0000_0000,
            turns == 0x8000_0000,
    ;
    let sum: i128 = n * turns + index as i128 + delta as i128;
    proof {
        lemma_mod_multiples_vanish(turns as int, index + delta, n as int);
        assert(turns * n + (index + delta) == sum) by (nonlinear_arith)
            requires
                sum == n * turns + index + delta,
        ;
    }
    (sum % n) as usize
}

impl<P> EditorState<P> {
    /// The editor on those groups, with the first screenshot shown. `history`
    /// is where they were looked for.
    pub fn new(groups: Vec<Group<P>>, history: &str) -> (r: EditorState<P>)
        requires
            all_have_images(group_views(groups@)),
        ensures
            r@.wf(),
            r@ == EditorView::opened(group_views(groups@), history@),
            r@ == (EditorView {
                groups: group_views(groups@),
                group: 0,
                image: 0,
                drag_start: None,
                selection: None,
                status: if groups@.len() == 0 {
                    "No screenshots found under "@ + history@
                } else {
                    "Drag to select a crop, then Enter to queue it and advance."@
                },
            }),
    {
        let status = if groups.len() == 0 {
            let mut s = "No screenshots found under ".to_owned();
            s.append(history);
            s
        } else {
            "Drag to select a crop, then Enter to queue it and advance.".to_owned()
        };
        EditorState { groups, group: 0, image: 0, drag_start: None, selection: None, status }
    }

    /// What the user is told.
    pub fn status(&self) -> (r: &str)
        ensures
            r@ == self@.status,
    {
        self.status.as_str()
    }

    /// Tells the user something else.
    pub fn set_status(&mut self, status: String)
        ensures
            final(self)@ == (EditorView { status: status@, ..old(self)@ }),
    {
        self.status = status;
    }

    /// What is selected.
    pub fn selection(&self) -> (r: Option<(Point, Point)>)
        ensures
            r == self@.selection,
    {
        self.selection
    }

    /// The screenshot that is shown.
    pub fn current(&self) -> (r: Option<&ImageItem<P>>)
        requires
            self@.wf(),
        ensures
            self@.shown_at(self@.image) == match r {
                Some(item) => Some(*item),
                None => None,
            },
            r == if self@.groups.len() == 0 {
                None
            } else {
                Some(&self@.images()[self@.image])
            },
    {
        if self.groups.len() == 0 {
            return None;
        }
        assert(group_views(self.groups@)[self.group as int] == self.groups@[self.group as int]@);
        Some(&self.groups[self.group].images[self.image])
    }

    /// Shows another screenshot of the group.
    pub fn navigate_image(&mut self, delta: i32)
        requires
            old(self)@.wf(),
        ensures
            final(self)@ == old(self)@.at_image(delta as int),
            final(self)@.wf(),
    {
        if self.groups.len() == 0 {
            return;
        }
        assert(group_views(self.groups@)[self.group as int] == self.groups@[self.group as int]@);
        self.image = wrap(self.image, delta, self.groups[self.group].images.len());
        self.selection = None;
        self.drag_start = None;
    }

    /// Shows the first screenshot of another group.
    pub fn navigate_group(&mut self, delta: i32)
        requires
            old(self)@.wf(),
        ensures
            final(self)@ == old(self)@.at_group(delta as int),
            final(self)@.wf(),
    {
        if self.groups.len() == 0 {
            return;
        }
        self.group = wrap(self.group, delta, self.groups.len());
        self.image = 0;
        self.selection = None;
        self.drag_start = None;
    }

    fn moved(&self) -> (r: EditorAction)
        ensures
            r == self@.moved(),
    {
        if self.groups.len() == 0 {
            EditorAction::Nothing
        } else {
            EditorAction::ResetView
        }
    }

    /// A key has been pressed, with or without the control key.
    pub fn handle_key(&mut self, key: u32, ctrl: bool) -> (r: EditorAction)
        requires
            old(self)@.wf(),
        ensures
            (final(self)@, r) == old(self)@.after_key(key, ctrl),
            final(self)@.wf(),
    {
        if key == 0x48 {
            self.navigate_image(-1);
            self.moved()
        } else if key == 0x4c {
            self.navigate_image(1);
            self.moved()
        } else if key == 0x4a {
            self.navigate_group(1);
            self.moved()
        } else if key == 0x4b {
            self.navigate_group(-1);
            self.moved()
        } else if key == 0x6b || key == 0xbb {
            EditorAction::ZoomIn
        } else if key == 0x6d || key == 0xbd {
            EditorAction::ZoomOut
        } else if key == 0x0d {
            match self.selection {
                Some((a, b)) => EditorAction::AcceptCrop(a, b),
                None => EditorAction::Nothing,
            }
        } else if key == 0x1b {
            if self.selection.is_some() {
                self.selection = None;
                EditorAction::Nothing
            } else {
                EditorAction::Quit
            }
        } else if key == 0x53 && ctrl && self.groups.len() > 0 {
            EditorAction::SaveBatch
        } else {
            EditorAction::Nothing
        }
    }

    /// The mouse button goes down.
    pub fn press(&mut self, at: Point)
        requires
            old(self)@.wf(),
        ensures
            final(self)@ == old(self)@.after_press(at),
            final(self)@.wf(),
    {
        self.drag_start = Some(at);
        self.selection = Some((at, at));
    }

    /// The mouse moves; whether something else is selected now.
    pub fn drag(&mut self, at: Point) -> (r: bool)
        requires
            old(self)@.wf(),
        ensures
            final(self)@ == old(self)@.after_move(at),
            r == old(self)@.drag_start is Some,
            final(self)@.wf(),
    {
        match self.drag_start {
            Some(start) => {
                self.selection = Some((start, at));
                true
            },
            None => false,
        }
    }

    /// The mouse button goes up.
    pub fn release(&mut self, at: Point)
        requires
            old(self)@.wf(),
        ensures
            final(self)@ == old(self)@.after_release(at),
            final(self)@.wf(),
    {
        self.drag(at);
        self.drag_start = None;
    }

    /// Queues a crop for the screenshot that is shown, and shows the next one.
    pub fn queue_crop(&mut self, crop: CropRect)
        requires
            old(self)@.wf(),
        ensures
            final(self)@ == old(self)@.with_crop(crop),
            final(self)@.wf(),
    {
        if self.groups.len() == 0 {
            return;
        }
        let ghost before = self@;
        let g: usize = self.group;
        let i: usize = self.image;
        assert(group_views(self.groups@)[g as int] == self.groups@[g as int]@);
        self.groups[g].images[i].crop = Some(crop);
        proof {
            let item = ImageItem { crop: Some(crop), ..before.images()[before.image] };
            let images = before.images().update(before.image, item);
            assert(self.groups@[g as int].images@ =~= images);
            assert(group_views(self.groups@) =~= before.with_images(images).groups);
            assert(self@ == before.with_images(images));
            assert(self@.images().len() == before.images().len());
            assert(self@.wf());
        }
        let mut status = "Crop queued: ".to_owned();
        status.append(to_decimal(crop.width as u64).as_str());
        status.append("×");
        status.append(to_decimal(crop.height as u64).as_str());
        self.navigate_image(1);
        self.status = status;
    }
}

/// The places of the screenshots that have a crop queued, in order.
pub open spec fn queued_places<P>(images: Seq<ImageItem<P>>) -> Seq<int>
    decreases images.len(),
{
    if images.len() == 0 {
        Seq::empty()
    } else {
        let before = queued_places(images.drop_last());
        if images.last().crop is Some {
            before.push(images.len() - 1)
        } else {
            before
        }
    }
}

proof fn lemma_queued_places<P>(images: Seq<ImageItem<P>>)
    ensures
        queued_places(images).len() == queued(images),
        queued(images) <= images.len(),
        forall|k: int|
            0 <= k < queued_places(images).len() ==> 0 <= #[trigger] queued_places(images)[k]
                < images.len() && images[queued_places(images)[k]].crop is Some,
    decreases images.len(),
{
    if images.len() > 0 {
        lemma_queued_places(images.drop_last());
    }
}

/// The places of the screenshots in the group that is shown whose crops are to
/// be saved, in order.
pub open spec fn pending_places<P>(state: EditorView<P>) -> Seq<int> {
    if state.groups.len() == 0 {
        Seq::empty()
    } else {
        queued_places(state.images())
    }
}

impl<P> EditorState<P> {
    /// The places of the screenshots in the group whose crops are to be saved,
    /// in order.
    pub fn pending(&self) -> (r: Vec<usize>)
        requires
            self@.wf(),
        ensures
            r@.map_values(|i: usize| i as int) == pending_places(self@),
    {
        let mut r: Vec<usize> = Vec::new();
        if self.groups.len() == 0 {
            assert(r@.map_values(|i: usize| i as int) =~= Seq::empty());
            return r;
        }
        assert(group_views(self.groups@)[self.group as int] == self.groups@[self.group as int]@);
        let images = &self.groups[self.group].images;
        let mut i: usize = 0;
        assert(r@.map_values(|i: usize| i as int) =~= queued_places(images@.take(0)));
        while i < images.len()
            invariant
                0 <= i <= images@.len(),
                r@.map_values(|i: usize| i as int) == queued_places(images@.take(i as int)),
            decreases images@.len() - i,
        {
            let ghost before = r@.map_values(|i: usize| i as int);
            assert(images@.take(i + 1).drop_last() =~= images@.take(i as int));
            if images[i].crop.is_some() {
                r.push(i);
                assert(r@.map_values(|i: usize| i as int) =~= before.push(i as int));
            }
            i += 1;
        }
        assert(images@.take(images@.len() as int) =~= images@);
        r
    }

    /// The place of the screenshot whose crop is saved next, when `saved` of the
    /// pending crops have been: the one after them. Nothing more is saved after
    /// one that could not be.
    pub fn next_to_save(&self, saved: usize, failed: bool) -> (r: Option<usize>)
        requires
            self@.wf(),
        ensures
            r is None <==> failed || saved >= pending_places(self@).len(),
            r matches Some(place) ==> place == pending_places(self@)[saved as int]
                && self@.groups.len() > 0 && place < self@.images().len()
                && self@.images()[place as int].crop is Some,
    {
        let waiting = self.pending();
        let ghost places = waiting@.map_values(|i: usize| i as int);
        proof {
            if self@.groups.len() > 0 {
                lemma_queued_places(self@.images());
            }
            assert(places.len() == waiting@.len());
        }
        if failed || saved >= waiting.len() {
            None
        } else {
            assert(places[saved as int] == waiting@[saved as int] as int);
            Some(waiting[saved])
        }
    }

    /// The screenshot at a place of the group that is shown.
    pub fn image_at(&self, place: usize) -> (r: Option<&ImageItem<P>>)
        requires
            self@.wf(),
        ensures
            self@.shown_at(place as int) == match r {
                Some(item) => Some(*item),
                None => None,
            },
            r == if self@.groups.len() == 0 || place >= self@.images().len() {
                None
            } else {
                Some(&self@.images()[place as int])
            },
    {
        if self.groups.len() == 0 {
            return None;
        }
        assert(group_views(self.groups@)[self.group as int] == self.groups@[self.group as int]@);
        if place >= self.groups[self.group].images.len() {
            return None;
        }
        Some(&self.groups[self.group].images[place])
    }

    /// The first `saved` of the pending crops have been saved. If there is a
    /// failure, with the path of the screenshot and the error, the next one
    /// could not be; the rest stays queued.
    pub fn finish_save(&mut self, saved: usize, failure: Option<(String, String)>)
        requires
            old(self)@.wf(),
            old(self)@.groups.len() > 0,
            saved <= queued(old(self)@.images()),
        ensures
            final(self)@ == old(self)@.after_save(
                saved as int,
                match failure {
                    Some((path, error)) => Some((path@, error@)),
                    None => None,
                },
            ),
            final(self)@.wf(),
    {
        let ghost before = self@;
        let ghost images = before.images();
        let g: usize = self.group;
        assert(group_views(self.groups@)[g as int] == self.groups@[g as int]@);
        let n: usize = self.groups[g].images.len();
        let mut i: usize = 0;
        let mut seen: usize = 0;
        let ghost old_groups = self.groups@;
        while i < n
            invariant
                0 <= i <= n,
                g == self.group,
                g < self.groups@.len(),
                n == images.len() == self.groups@[g as int].images@.len(),
                seen == queued(images.take(i as int)),
                seen <= i,
                self.group == before.group,
                self.image == before.image,
                self.drag_start == before.drag_start,
                self.selection == before.selection,
                self.status@ == before.status,
                self.groups@.len() == old_groups.len(),
                before.groups == group_views(old_groups),
                images == before.groups[g as int].images,
                forall|k: int|
                    0 <= k < old_groups.len() && k != g ==> #[trigger] self.groups@[k]
                        == old_groups[k],
                self.groups@[g as int].label == old_groups[g as int].label,
                forall|k: int|
                    0 <= k < i ==> #[trigger] self.groups@[g as int].images@[k] == without_crops(
                        images,
                        saved as int,
                    )[k],
                forall|k: int|
                    i <= k < n ==> #[trigger] self.groups@[g as int].images@[k] == images[k],
            decreases n - i,
        {
            assert(images.take(i + 1).drop_last() =~= images.take(i as int));
            assert(self.groups@[g as int].images@[i as int] == images[i as int]);
            let had_crop = self.groups[g].images[i].crop.is_some();
            if seen < saved {
                self.groups[g].images[i].crop = None;
            }
            if had_crop {
                seen += 1;
            }
            i += 1;
        }
        proof {
            let cleared = without_crops(images, saved as int);
            assert(self.groups@[g as int].images@ =~= cleared);
            assert(group_views(self.groups@) =~= before.with_images(cleared).groups);
        }
        match failure {
            Some((path, error)) => {
                let mut status = "Save failed for ".to_owned();
                status.append(path.as_str());
                status.append(": ");
                status.append(error.as_str());
                self.status = status;
            },
            None => {
                let mut status = "Saved ".to_owned();
                status.append(to_decimal(saved as u64).as_str());
                status.append(" cropped image(s) in this transcript.");
                self.selection = None;
                self.status = status;
            },
        }
    }

    /// What stands above the picture, given the size at which it is shown.
    pub fn header_text(&self, zoom: &str) -> (r: String)
        requires
            self@.wf(),
        ensures
            r@ == header(self@, zoom@),
    {
        if self.groups.len() == 0 {
            return "QuoteMe screenshots".to_owned();
        }
        assert(group_views(self.groups@)[self.group as int] == self.groups@[self.group as int]@);
        let waiting = self.pending();
        proof {
            lemma_queued_places(self@.images());
            assert(waiting@.len() == waiting@.map_values(|i: usize| i as int).len());
        }
        let count: usize = self.groups[self.group].images.len();
        let mut r = "Transcript ".to_owned();
        r.append(to_decimal((self.group + 1) as u64).as_str());
        r.append("/");
        r.append(to_decimal(self.groups.len() as u64).as_str());
        r.append(": ");
        r.append(self.groups[self.group].label.as_str());
        r.append("    Image ");
        r.append(to_decimal((self.image + 1) as u64).as_str());
        r.append("/");
        r.append(to_decimal(count as u64).as_str());
        r.append("    Zoom ");
        r.append(zoom);
        r.append("%    ");
        r.append(to_decimal(waiting.len() as u64).as_str());
        r.append(" crop(s) queued");
        r
    }
}

/// What stands above the picture.
pub open spec fn header<P>(state: EditorView<P>, zoom: Seq<char>) -> Seq<char> {
    if state.groups.len() == 0 {
        "QuoteMe screenshots"@
    } else {
        "Transcript "@ + decimal((state.group + 1) as nat) + "/"@ + decimal(state.groups.len())
            + ": "@ + state.groups[state.group].label + "    Image "@ + decimal(
            (state.image + 1) as nat,
        ) + "/"@ + decimal(state.images().len()) + "    Zoom "@ + zoom + "%    "@ + decimal(
            queued(state.images()),
        ) + " crop(s) queued"@
    }
}

// ---------------------------------------------------------------------------
// Selections
// ---------------------------------------------------------------------------

/// The number nearest to `v` between two bounds.
pub open spec fn between(v: int, low: int, high: int) -> int {
    if v < low {
        low
    } else if v > high {
        high
    } else {
        v
    }
}

/// The smaller of two numbers.
pub open spec fn smaller(a: int, b: int) -> int {
    if a < b {
        a
    } else {
        b
    }
}

/// The larger of two numbers.
pub open spec fn larger(a: int, b: int) -> int {
    if a < b {
        b
    } else {
        a
    }
}

fn nearest(v: i32, low: i32, high: i32) -> (r: i32)
    ensures
        r == between(v as int, low as int, high as int),
{
    if v < low {
        low
    } else if v > high {
        high
    } else {
        v
    }
}

/// The part of the picture's place in the window that is selected by two
/// opposite corners, or `None` if that is less than three points wide or high.
pub open spec fn part_selected(a: Point, b: Point, display: DisplayRect) -> Option<DisplayRect> {
    let left = between(smaller(a.x as int, b.x as int), display.left as int, display.right as int);
    let right = between(larger(a.x as int, b.x as int), display.left as int, display.right as int);
    let top = between(smaller(a.y as int, b.y as int), display.top as int, display.bottom as int);
    let bottom = between(larger(a.y as int, b.y as int), display.top as int, display.bottom as int);
    if right - left < 3 || bottom - top < 3 {
        None
    } else {
        Some(
            DisplayRect {
                left: left as i32,
                top: top as i32,
                right: right as i32,
                bottom: bottom as i32,
            },
        )
    }
}

/// The part of the picture's place in the window that is selected, or `None` if
/// that is less than three points wide or high.
pub fn selected_part(a: &Point, b: &Point, display: &DisplayRect) -> (r: Option<DisplayRect>)
    requires
        display.left <= display.right,
        display.top <= display.bottom,
    ensures
        r == part_selected(*a, *b, *display),
{
    let (low_x, high_x) = if a.x < b.x {
        (a.x, b.x)
    } else {
        (b.x, a.x)
    };
    let (low_y, high_y) = if a.y < b.y {
        (a.y, b.y)
    } else {
        (b.y, a.y)
    };
    let left: i32 = nearest(low_x, display.left, display.right);
    let right: i32 = nearest(high_x, display.left, display.right);
    let top: i32 = nearest(low_y, display.top, display.bottom);
    let bottom: i32 = nearest(high_y, display.top, display.bottom);
    if (right as i64 - left as i64) < 3 || (bottom as i64 - top as i64) < 3 {
        return None;
    }
    Some(DisplayRect { left, top, right, bottom })
}

/// The crop stays in the picture.
pub open spec fn fits(crop: CropRect, width: u32, height: u32) -> bool {
    &&& crop.width > 0
    &&& crop.height > 0
    &&& crop.x + crop.width <= width
    &&& crop.y + crop.height <= height
}

/// A crop of a picture, cut off where the picture ends; `None` if nothing is
/// left.
pub open spec fn crop_fitted(crop: CropRect, width: u32, height: u32) -> Option<CropRect> {
    let w = smaller(crop.width as int, width - crop.x);
    let h = smaller(crop.height as int, height - crop.y);
    if w == 0 || h == 0 {
        None
    } else {
        Some(CropRect { x: crop.x, y: crop.y, width: w as u32, height: h as u32 })
    }
}

/// A crop of a picture, cut off where the picture ends; `None` if nothing is
/// left.
pub fn fit_crop(crop: &CropRect, width: u32, height: u32) -> (r: Option<CropRect>)
    requires
        crop.x <= width,
        crop.y <= height,
    ensures
        r == crop_fitted(*crop, width, height),
        r matches Some(c) ==> fits(c, width, height),
{
    let most_width: u32 = width - crop.x;
    let most_height: u32 = height - crop.y;
    let w: u32 = if crop.width < most_width {
        crop.width
    } else {
        most_width
    };
    let h: u32 = if crop.height < most_height {
        crop.height
    } else {
        most_height
    };
    if w == 0 || h == 0 {
        return None;
    }
    Some(CropRect { x: crop.x, y: crop.y, width: w, height: h })
}

/// The crop of a picture that two opposite corners of a selection give, where
/// `scale` says where in the picture a part of its place in the window lies.
pub open spec fn crop_selected(
    scale: spec_fn(DisplayRect) -> CropRect,
    a: Point,
    b: Point,
    display: DisplayRect,
    width: u32,
    height: u32,
) -> Option<CropRect> {
    match part_selected(a, b, display) {
        Some(part) => crop_fitted(scale(part), width, height),
        None => None,
    }
}

/// The crop of a picture that two opposite corners of a selection in the window
/// give, or `None` if the selection is too small or nothing is left of it.
/// `scale` says where in the picture a part of its place in the window lies, and
/// must not begin outside the picture.
pub fn selection_to_crop<F: Fn(DisplayRect) -> CropRect>(
    a: &Point,
    b: &Point,
    display: &DisplayRect,
    width: u32,
    height: u32,
    scale: F,
) -> (r: Option<CropRect>)
    requires
        display.left <= display.right,
        display.top <= display.bottom,
        part_selected(*a, *b, *display) matches Some(part) ==> call_requires(scale, (part,)),
        part_selected(*a, *b, *display) matches Some(part) ==> forall|c: CropRect|
            call_ensures(scale, (part,), c) ==> c.x <= width && c.y <= height,
    ensures
        match part_selected(*a, *b, *display) {
            None => r is None,
            Some(part) => exists|c: CropRect|
                #![trigger call_ensures(scale, (part,), c)]
                call_ensures(scale, (part,), c) && r == crop_fitted(c, width, height),
        },
        forall|f: spec_fn(DisplayRect) -> CropRect|
            (forall|part: DisplayRect, c: CropRect|
                call_ensures(scale, (part,), c) ==> c == f(part)) ==> r
                == #[trigger] crop_selected(f, *a, *b, *display, width, height),
        r matches Some(c) ==> fits(c, width, height),
{
    match selected_part(a, b, display) {
        Some(part) => {
            let crop = scale(part);
            fit_crop(&crop, width, height)
        },
        None => None,
    }
}

/// It does not matter which two opposite corners a selection is drawn between,
/// nor in which direction: exchanging the corners, or only their places to the
/// left and right or above and below, selects the same part.
pub proof fn law_corners_may_be_exchanged(a: Point, b: Point, display: DisplayRect)
    ensures
        part_selected(b, a, display) == part_selected(a, b, display),
        part_selected(Point { x: b.x, y: a.y }, Point { x: a.x, y: b.y }, display)
            == part_selected(a, b, display),
        part_selected(Point { x: a.x, y: b.y }, Point { x: b.x, y: a.y }, display)
            == part_selected(a, b, display),
{
}

/// However the picture is scaled in the window, a crop that is selected has at
/// least one pixel and stays in the picture; a selection of less than three
/// points gives none; and exchanging the corners, or only their places to the
/// left and right or above and below, gives the same crop.
pub proof fn law_selected_crop(
    scale: spec_fn(DisplayRect) -> CropRect,
    a: Point,
    b: Point,
    display: DisplayRect,
    width: u32,
    height: u32,
)
    requires
        part_selected(a, b, display) matches Some(part) ==> scale(part).x <= width && scale(part).y
            <= height,
    ensures
        crop_selected(scale, a, b, display, width, height) matches Some(c) ==> c.width >= 1
            && c.height >= 1 && c.x + c.width <= width && c.y + c.height <= height,
        part_selected(a, b, display) is None ==> crop_selected(
            scale,
            a,
            b,
            display,
            width,
            height,
        ) is None,
        crop_selected(scale, b, a, display, width, height) == crop_selected(
            scale,
            a,
            b,
            display,
            width,
            height,
        ),
        crop_selected(
            scale,
            Point { x: b.x, y: a.y },
            Point { x: a.x, y: b.y },
            display,
            width,
            height,
        ) == crop_selected(scale, a, b, display, width, height),
        crop_selected(
            scale,
            Point { x: a.x, y: b.y },
            Point { x: b.x, y: a.y },
            display,
            width,
            height,
        ) == crop_selected(scale, a, b, display, width, height),
{
    law_corners_may_be_exchanged(a, b, display);
}

/// A selected part lies in the picture's place in the window and is at least
/// three points wide and high.
pub proof fn law_selected_part_lies_in_picture(a: Point, b: Point, display: DisplayRect)
    requires
        display.left <= display.right,
        display.top <= display.bottom,
    ensures
        part_selected(a, b, display) matches Some(p) ==> {
            &&& display.left <= p.left
            &&& p.right <= display.right
            &&& display.top <= p.top
            &&& p.bottom <= display.bottom
            &&& p.right - p.left >= 3
            &&& p.bottom - p.top >= 3
        },
{
}

/// Half of a word as a signed number.
pub open spec fn signed_half(n: int) -> int {
    if n < 0x8000 {
        n
    } else {
        n - 0x1_0000
    }
}

/// The point that a mouse message tells: the low two bytes and the two above
/// them, each as a signed number.
pub fn point_from_lparam(lparam: u64) -> (r: Point)
    ensures
        r.x == signed_half(lparam as int % 0x1_0000),
        r.y == signed_half(lparam as int / 0x1_0000 % 0x1_0000),
{
    let low: i32 = (lparam % 0x1_0000) as i32;
    let high: i32 = (lparam / 0x1_0000 % 0x1_0000) as i32;
    Point {
        x: if low < 0x8000 {
            low
        } else {
            low - 0x1_0000
        },
        y: if high < 0x8000 {
            high
        } else {
            high - 0x1_0000
        },
    }
}

// ---------------------------------------------------------------------------
// What holds of every review
// ---------------------------------------------------------------------------

/// Going on and going back cancel each other, at the ends too.
pub proof fn law_forth_and_back<P>(state: EditorView<P>)
    requires
        state.wf(),
    ensures
        state.at_image(1).at_image(-1) == state.at_image(0),
        state.at_image(-1).at_image(1) == state.at_image(0),
        state.at_image(0).image == state.image,
        state.at_group(1).at_group(-1).group == state.group,
        state.at_group(-1).at_group(1).group == state.group,
{
    if state.groups.len() > 0 {
        let n = state.images().len() as int;
        lemma_wrap(state.image, n);
        lemma_wrap(state.group, state.groups.len() as int);
        assert(state.at_image(1).images() == state.images());
        assert(state.at_image(-1).images() == state.images());
    }
}

proof fn lemma_wrap(i: int, n: int)
    requires
        0 <= i < n,
    ensures
        wrapped(i, 0, n) == i,
        wrapped(i, 1, n) == (if i + 1 == n {
            0
        } else {
            i + 1
        }),
        wrapped(i, -1, n) == (if i == 0 {
            n - 1
        } else {
            i - 1
        }),
        wrapped(wrapped(i, 1, n), -1, n) == i,
        wrapped(wrapped(i, -1, n), 1, n) == i,
{
    lemma_step(i, 0, n);
    lemma_step(i, 1, n);
    lemma_step(i, -1, n);
    lemma_step(wrapped(i, 1, n), -1, n);
    lemma_step(wrapped(i, -1, n), 1, n);
}

proof fn lemma_step(i: int, delta: int, n: int)
    requires
        0 <= i < n,
        -1 <= delta <= 1,
    ensures
        wrapped(i, delta, n) == (if i + delta == n {
            0
        } else if i + delta < 0 {
            n - 1
        } else {
            i + delta
        }),
{
    if i + delta == n {
        vstd::arithmetic::div_mod::lemma_mod_self_0(n);
    } else if i + delta < 0 {
        lemma_mod_multiples_vanish(1, i + delta, n);
        vstd::arithmetic::div_mod::lemma_small_mod((n - 1) as nat, n as nat);
        assert((n + (i + delta)) % n == (i + delta) % n) by {
            assert(1 * n == n);
        }
    } else {
        vstd::arithmetic::div_mod::lemma_small_mod((i + delta) as nat, n as nat);
    }
}

/// Going on as often as there are screenshots shows each of them: after `k`
/// steps from the first one the screenshot at place `k` is shown.
pub proof fn law_cycle_shows_all<P>(state: EditorView<P>, k: int)
    requires
        state.wf(),
        state.groups.len() > 0,
        state.image == 0,
        0 <= k <= state.images().len(),
    ensures
        state.at_image(k).image == k % state.images().len() as int,
        k > 0 ==> state.at_image(k) == state.at_image(k - 1).at_image(1),
{
    let n = state.images().len() as int;
    if k > 0 {
        assert(state.at_image(k - 1).images() == state.images());
        vstd::arithmetic::div_mod::lemma_small_mod((k - 1) as nat, n as nat);
    }
}

/// Queueing a crop keeps all others, and sets the one of the screenshot shown.
pub proof fn law_crop_is_queued<P>(state: EditorView<P>, crop: CropRect, g: int, i: int)
    requires
        state.wf(),
        0 <= g < state.groups.len(),
        0 <= i < state.groups[g].images.len(),
    ensures
        state.with_crop(crop).groups[g].images[i].path == state.groups[g].images[i].path,
        state.with_crop(crop).groups[g].images[i].crop == if g == state.group && i == state.image {
            Some(crop)
        } else {
            state.groups[g].images[i].crop
        },
{
}

/// After all queued crops of a group have been saved, none is left in it; after
/// a failure those that were not saved are all still queued.
pub proof fn law_saved_crops_leave_the_queue<P>(
    state: EditorView<P>,
    saved: int,
    failure: Option<(Seq<char>, Seq<char>)>,
)
    requires
        state.wf(),
        state.groups.len() > 0,
        0 <= saved <= queued(state.images()),
    ensures
        queued(state.after_save(saved, failure).images()) == queued(state.images()) - saved,
{
    let images = state.images();
    let cleared = without_crops(images, saved);
    assert(state.after_save(saved, failure).images() == cleared);
    lemma_cleared(images, saved, images.len() as int);
    assert(cleared.take(images.len() as int) =~= cleared);
    assert(images.take(images.len() as int) =~= images);
}

proof fn lemma_cleared<P>(images: Seq<ImageItem<P>>, saved: int, n: int)
    requires
        0 <= n <= images.len(),
        0 <= saved,
    ensures
        queued(without_crops(images, saved).take(n)) == if queued(images.take(n)) < saved {
            0int
        } else {
            queued(images.take(n)) - saved
        },
    decreases n,
{
    let cleared = without_crops(images, saved);
    if n > 0 {
        lemma_cleared(images, saved, n - 1);
        assert(cleared.take(n).drop_last() =~= cleared.take(n - 1));
        assert(images.take(n).drop_last() =~= images.take(n - 1));
        assert(cleared.take(n).last() == cleared[n - 1]);
        assert(images.take(n).last() == images[n - 1]);
    }
}

/// Escape always gets out: at the first press if nothing is selected, else at
/// the second.
pub proof fn law_escape_twice_quits<P>(state: EditorView<P>, ctrl: bool)
    ensures
        state.selection is None ==> state.after_key(0x1b, ctrl).1 == EditorAction::Quit,
        state.selection is Some ==> state.after_key(0x1b, ctrl).1 == EditorAction::Nothing
            && state.after_key(0x1b, ctrl).0.after_key(0x1b, ctrl).1 == EditorAction::Quit,
{
}

/// The point lies in the rectangle drawn between two corners, and in the picture's
/// place in the window.
pub open spec fn is_drawn(a: Point, b: Point, display: DisplayRect, x: int, y: int) -> bool {
    &&& a.x <= x <= b.x || b.x <= x <= a.x
    &&& a.y <= y <= b.y || b.y <= y <= a.y
    &&& display.left <= x <= display.right
    &&& display.top <= y <= display.bottom
}

/// The part that is selected is all of the rectangle drawn that lies in the
/// picture's place: a point is in the part exactly if it is in both. There is a
/// part exactly if two points three apart in both directions are in both. Where
/// both corners lie in the picture's place, they are the corners of the part.
pub proof fn law_selected_part_is_all_that_is_drawn(a: Point, b: Point, display: DisplayRect)
    requires
        display.left <= display.right,
        display.top <= display.bottom,
    ensures
        part_selected(a, b, display) is Some <==> exists|x: int, y: int| #[trigger]
            is_drawn(a, b, display, x, y) && is_drawn(a, b, display, x + 3, y + 3),
        part_selected(a, b, display) matches Some(p) ==> forall|x: int, y: int| #[trigger]
            is_drawn(a, b, display, x, y) <==> p.left <= x <= p.right && p.top <= y <= p.bottom,
        part_selected(a, b, display) matches Some(p) ==> (is_drawn(
            a,
            b,
            display,
            a.x as int,
            a.y as int,
        ) && is_drawn(a, b, display, b.x as int, b.y as int) ==> ((p.left == a.x && p.right == b.x)
            || (p.left == b.x && p.right == a.x)) && ((p.top == a.y && p.bottom == b.y) || (p.top
            == b.y && p.bottom == a.y))),
{
    if let Some(p) = part_selected(a, b, display) {
        assert(is_drawn(a, b, display, p.left as int, p.top as int));
        assert(is_drawn(a, b, display, p.left + 3, p.top + 3));
    }
}

/// A crop that is cut off where the picture ends holds just the pixels of the crop
/// that are in the picture; there is none if there is no such pixel.
pub proof fn law_fitted_crop_is_all_in_the_picture(crop: CropRect, width: u32, height: u32)
    requires
        crop.x <= width,
        crop.y <= height,
    ensures
        crop_fitted(crop, width, height) is Some <==> crop.width > 0 && crop.height > 0 && crop.x
            < width && crop.y < height,
        crop_fitted(crop, width, height) matches Some(c) ==> {
            &&& c.x == crop.x && c.y == crop.y
            &&& forall|x: int|
                #![trigger c.x + x]
                c.x <= x < c.x + c.width <==> crop.x <= x < crop.x + crop.width && x < width
            &&& forall|y: int|
                #![trigger c.y + y]
                c.y <= y < c.y + c.height <==> crop.y <= y < crop.y + crop.height && y < height
        },
{
}

/// The crop of a selection is that of the part that is drawn, cut off where the
/// picture ends.
pub proof fn law_crop_of_a_selection(
    scale: spec_fn(DisplayRect) -> CropRect,
    a: Point,
    b: Point,
    display: DisplayRect,
    width: u32,
    height: u32,
    part: DisplayRect,
)
    requires
        part_selected(a, b, display) == Some(part),
        scale(part).x <= width,
        scale(part).y <= height,
    ensures
        ({
            let c = scale(part);
            let r = crop_selected(scale, a, b, display, width, height);
            &&& c.x + c.width <= width && c.y + c.height <= height && c.width > 0 && c.height > 0
                ==> r == Some(c)
            &&& r matches Some(d) ==> d.x == c.x && d.y == c.y && d.width <= c.width && d.height
                <= c.height
        }),
{
}

/// Going around a list: the place is one of the list's, and is as far as asked, but
/// for whole rounds.
pub proof fn law_around(index: int, delta: int, count: int)
    requires
        count > 0,
    ensures
        0 <= wrapped(index, delta, count) < count,
        exists|rounds: int| index + delta == wrapped(index, delta, count) + #[trigger] (count
            * rounds),
{
    let sum = index + delta;
    vstd::arithmetic::div_mod::lemma_fundamental_div_mod(sum, count);
    vstd::arithmetic::div_mod::lemma_mod_bound(sum, count);
    assert(sum == wrapped(index, delta, count) + count * (sum / count));
}

/// The state shows that screenshot of that group, with nothing selected, and is else
/// the same.
pub open spec fn shows_instead<P>(
    before: EditorView<P>,
    after: EditorView<P>,
    group: int,
    image: int,
) -> bool {
    &&& after.groups == before.groups
    &&& after.status == before.status
    &&& after.group == group
    &&& after.image == image
    &&& after.selection is None
    &&& after.drag_start is None
}

/// The keys that move: L to the next screenshot of the group and H to the one
/// before, J to the first of the next group and K to that of the one before, each
/// around the end. Without screenshots they do nothing.
pub proof fn law_keys_that_move<P>(state: EditorView<P>, ctrl: bool)
    requires
        state.wf(),
    ensures
        state.groups.len() > 0 ==> {
            let n = state.images().len();
            let m = state.groups.len();
            let next_image = if state.image + 1 == n {
                0
            } else {
                state.image + 1
            };
            let last_image = if state.image == 0 {
                n - 1
            } else {
                state.image - 1
            };
            let next_group = if state.group + 1 == m {
                0
            } else {
                state.group + 1
            };
            let last_group = if state.group == 0 {
                m - 1
            } else {
                state.group - 1
            };
            &&& shows_instead(state, state.after_key('L' as u32, ctrl).0, state.group, next_image)
            &&& shows_instead(state, state.after_key('H' as u32, ctrl).0, state.group, last_image)
            &&& shows_instead(state, state.after_key('J' as u32, ctrl).0, next_group, 0)
            &&& shows_instead(state, state.after_key('K' as u32, ctrl).0, last_group, 0)
            &&& state.after_key('L' as u32, ctrl).1 == EditorAction::ResetView
            &&& state.after_key('H' as u32, ctrl).1 == EditorAction::ResetView
            &&& state.after_key('J' as u32, ctrl).1 == EditorAction::ResetView
            &&& state.after_key('K' as u32, ctrl).1 == EditorAction::ResetView
        },
        state.groups.len() == 0 ==> {
            let nothing = (state, EditorAction::Nothing);
            &&& state.after_key('L' as u32, ctrl) == nothing
            &&& state.after_key('H' as u32, ctrl) == nothing
            &&& state.after_key('J' as u32, ctrl) == nothing
            &&& state.after_key('K' as u32, ctrl) == nothing
        },
{
    if state.groups.len() > 0 {
        lemma_wrap(state.image, state.images().len() as int);
        lemma_wrap(state.group, state.groups.len() as int);
    }
}

/// The keys that do not move change nothing but that Escape drops the selection:
/// plus and minus zoom, Enter turns the selection into a crop, Escape without one
/// quits, and S with Ctrl saves, if there is anything.
pub proof fn law_keys_that_act<P>(state: EditorView<P>, key: u32, ctrl: bool)
    requires
        key != 'H' as u32 && key != 'J' as u32 && key != 'K' as u32 && key != 'L' as u32,
    ensures
        ({
            let (next, action) = state.after_key(key, ctrl);
            let escapes = key == 27 && state.selection is Some;
            &&& next == (EditorView {
                selection: if escapes {
                    None
                } else {
                    state.selection
                },
                ..state
            })
            &&& action == EditorAction::ZoomIn <==> key == 0x6b || key == 0xbb
            &&& action == EditorAction::ZoomOut <==> key == 0x6d || key == 0xbd
            &&& action == EditorAction::SaveBatch <==> key == 'S' as u32 && ctrl
                && state.groups.len() > 0
            &&& action == EditorAction::Quit <==> key == 27 && state.selection is None
            &&& (exists|a: Point, b: Point| action == EditorAction::AcceptCrop(a, b)) <==> key == 13
                && state.selection is Some
            &&& action matches EditorAction::AcceptCrop(a, b) ==> state.selection == Some((a, b))
            &&& action != EditorAction::ResetView
        }),
{
    if key == 13 && state.selection is Some {
        let (a, b) = state.selection->0;
        assert(state.after_key(key, ctrl).1 == EditorAction::AcceptCrop(a, b));
    }
}

/// The mouse: from where the button goes down to where it goes up is selected,
/// wherever the mouse was meanwhile; while it is down, to where the mouse is. Moving
/// it without the button does nothing, and nothing else changes.
pub proof fn law_mouse_selects<P>(state: EditorView<P>, from: Point, over: Point, to: Point)
    ensures
        ({
            let pressed = state.after_press(from);
            let moved = pressed.after_move(over);
            let released = moved.after_release(to);
            &&& pressed == (EditorView {
                drag_start: Some(from),
                selection: Some((from, from)),
                ..state
            })
            &&& moved == (EditorView {
                drag_start: Some(from),
                selection: Some((from, over)),
                ..state
            })
            &&& released == (EditorView {
                drag_start: None,
                selection: Some((from, to)),
                ..state
            })
            &&& released.after_move(over) == released
        }),
        state.drag_start is None ==> state.after_move(over) == state && state.after_release(to)
            == state,
{
}

/// After a crop is queued the next screenshot of the group is shown, with nothing
/// selected; groups, labels and screenshots are the same but for that crop, and the
/// user is told its size.
pub proof fn law_next_after_crop<P>(state: EditorView<P>, crop: CropRect)
    requires
        state.wf(),
    ensures
        state.groups.len() == 0 ==> state.with_crop(crop) == state,
        state.groups.len() > 0 ==> {
            let next = state.with_crop(crop);
            &&& next.groups.len() == state.groups.len()
            &&& next.group == state.group
            &&& next.image == if state.image + 1 == state.images().len() {
                0
            } else {
                state.image + 1
            }
            &&& next.selection is None && next.drag_start is None
            &&& next.status == "Crop queued: "@ + decimal(crop.width as nat) + "×"@ + decimal(
                crop.height as nat,
            )
            &&& forall|g: int|
                0 <= g < state.groups.len() ==> (#[trigger] next.groups[g]).label
                    == state.groups[g].label && next.groups[g].images.len()
                    == state.groups[g].images.len()
        },
{
    if state.groups.len() > 0 {
        lemma_wrap(state.image, state.images().len() as int);
    }
}

/// Queued crops are counted one by one.
pub proof fn law_queued<P>(a: Seq<ImageItem<P>>, b: Seq<ImageItem<P>>, item: ImageItem<P>)
    ensures
        queued(Seq::<ImageItem<P>>::empty()) == 0,
        queued(seq![item]) == if item.crop is Some {
            1nat
        } else {
            0nat
        },
        queued(a + b) == queued(a) + queued(b),
    decreases b.len(),
{
    reveal_with_fuel(queued, 2);
    assert(seq![item].drop_last() =~= Seq::empty());
    if b.len() == 0 {
        assert(a + b =~= a);
    } else {
        law_queued(a, b.drop_last(), item);
        assert((a + b).drop_last() =~= a + b.drop_last());
        assert((a + b).last() == b.last());
    }
}

/// What is waiting to be saved: the screenshots of the group that have a crop, all
/// of them, each once and in order.
pub proof fn law_pending<P>(images: Seq<ImageItem<P>>)
    ensures
        forall|k: int|
            0 <= k < queued_places(images).len() ==> 0 <= (#[trigger] queued_places(images)[k])
                < images.len() && images[queued_places(images)[k]].crop is Some,
        forall|j: int, k: int|
            0 <= j < k < queued_places(images).len() ==> (#[trigger] queued_places(images)[j]) < (
            #[trigger] queued_places(images)[k]),
        forall|i: int|
            0 <= i < images.len() && (#[trigger] images[i]).crop is Some ==> queued_places(
                images,
            ).contains(i),
    decreases images.len(),
{
    if images.len() > 0 {
        let rest = images.drop_last();
        law_pending(rest);
        let before = queued_places(rest);
        let all = queued_places(images);
        assert forall|k: int| 0 <= k < all.len() implies 0 <= (#[trigger] all[k]) < images.len()
            && images[all[k]].crop is Some by {
            if k < before.len() {
                assert(all[k] == before[k]);
                assert(rest[before[k]] == images[before[k]]);
            }
        }
        assert forall|j: int, k: int| 0 <= j < k < all.len() implies (#[trigger] all[j]) < (
        #[trigger] all[k]) by {
            assert(all[j] == before[j]);
            if k < before.len() {
                assert(all[k] == before[k]);
            }
        }
        assert forall|i: int| 0 <= i < images.len() && (
        #[trigger] images[i]).crop is Some implies all.contains(i) by {
            if i < rest.len() {
                assert(rest[i] == images[i]);
                assert(before.contains(i));
                let k = before.index_of(i);
                assert(all[k] == i);
            } else {
                assert(all[before.len() as int] == i);
            }
        }
    }
}

/// Saving: of the group that is shown, just the first crops that were waiting, as
/// many as were saved, are gone; all else is as it was. If all went well the
/// selection is dropped and the user is told how many; else which failed and why.
pub proof fn law_after_saving<P>(
    state: EditorView<P>,
    saved: int,
    failure: Option<(Seq<char>, Seq<char>)>,
    g: int,
    i: int,
)
    requires
        state.wf(),
        0 <= g < state.groups.len(),
        0 <= i < state.groups[g].images.len(),
        0 <= saved,
    ensures
        ({
            let next = state.after_save(saved, failure);
            let before = state.groups[g].images[i];
            let after = next.groups[g].images[i];
            let waiting_before = queued(state.groups[g].images.take(i));
            &&& next.groups.len() == state.groups.len()
            &&& next.groups[g].label == state.groups[g].label
            &&& next.groups[g].images.len() == state.groups[g].images.len()
            &&& after.path == before.path
            &&& after.crop == if g == state.group && waiting_before < saved {
                None
            } else {
                before.crop
            }
            &&& next.group == state.group && next.image == state.image && next.drag_start
                == state.drag_start
            &&& next.selection == if failure is None {
                None
            } else {
                state.selection
            }
            &&& next.status == match failure {
                Some((path, error)) => "Save failed for "@ + path + ": "@ + error,
                None => "Saved "@ + decimal(saved as nat)
                    + " cropped image(s) in this transcript."@,
            }
        }),
{
}

/// Screenshots are the files whose names are made of `screenshot-`, anything, and
/// `.png`.
pub proof fn law_screenshot_names(name: Seq<char>)
    ensures
        is_screenshot(name) <==> exists|middle: Seq<char>|
            name == #[trigger] ("screenshot-"@ + middle + ".png"@),
{
    reveal_strlit("screenshot-");
    reveal_strlit(".png");
    let (p, s) = ("screenshot-"@, ".png"@);
    if is_screenshot(name) {
        law_prefix_and_suffix(name, p);
        law_prefix_and_suffix(name, s);
        assert(name.len() >= 15) by {
            let at = name.len() - 4;
            assert(name.skip(at)[0] == '.');
            if at < 11 {
                assert(name.take(11)[at] == name[at]);
                assert(p[at] == '.');
            }
        }
        let middle = name.subrange(11, name.len() - 4);
        assert(name =~= name.take(11) + middle + name.skip(name.len() - 4));
        assert(name == p + middle + s);
    }
    if exists|middle: Seq<char>| name == #[trigger] (p + middle + s) {
        let middle = choose|middle: Seq<char>| name == #[trigger] (p + middle + s);
        law_prefix_and_suffix(name, p);
        law_prefix_and_suffix(name, s);
        assert(name.take(11) =~= p);
        assert(name.skip(name.len() - 4) =~= s);
    }
}

/// Of two parts of a directory the screenshots are those of the one, then those of
/// the other; a file is one or is not.
pub proof fn law_screenshots<P>(a: Seq<FoundFile<P>>, b: Seq<FoundFile<P>>, file: FoundFile<P>)
    ensures
        screenshots(a + b) == screenshots(a) + screenshots(b),
        screenshots(seq![file]) == if is_screenshot(file.name@) {
            seq![file]
        } else {
            Seq::<FoundFile<P>>::empty()
        },
    decreases b.len(),
{
    reveal_with_fuel(screenshots, 2);
    assert(seq![file].drop_last() =~= Seq::empty());
    assert(screenshots(seq![file]) =~= if is_screenshot(file.name@) {
        seq![file]
    } else {
        Seq::<FoundFile<P>>::empty()
    });
    if b.len() == 0 {
        assert(a + b =~= a);
        assert(screenshots(a) + screenshots(b) =~= screenshots(a));
    } else {
        law_screenshots(a, b.drop_last(), file);
        assert((a + b).drop_last() =~= a + b.drop_last());
        assert((a + b).last() == b.last());
        assert(screenshots(a + b) =~= screenshots(a) + screenshots(b));
    }
}

/// The images are those of the files, in the order of their names and without crops.
pub open spec fn shown_by_name<P>(
    files: Seq<FoundFile<P>>,
    ordered: Seq<FoundFile<P>>,
    images: Seq<ImageItem<P>>,
) -> bool {
    &&& ordered.len() == files.len()
    &&& images.len() == files.len()
    &&& forall|f: FoundFile<P>| #[trigger] ordered.contains(f) <==> files.contains(f)
    &&& forall|i: int|
        0 <= i < images.len() ==> (#[trigger] images[i]).path == ordered[i].path
            && images[i].crop is None
    &&& forall|i: int, j: int|
        0 <= i < j < ordered.len() ==> text_leads(
            (#[trigger] ordered[i]).name@,
            (#[trigger] ordered[j]).name@,
        )
}

/// A group has the label of its directory and a screenshot for each of the
/// directory's, in the order of their names, with no crop.
pub proof fn law_group_of_a_directory<P>(dir: LabelledDir<P>, group: Group<P>)
    requires
        is_group_of(dir, group),
    ensures
        group.label@ == dir.label@,
        exists|files: Seq<FoundFile<P>>| #[trigger]
            shown_by_name(screenshots(dir.files@), files, group.images@),
{
    let all = screenshots(dir.files@);
    let files = choose|sorted: Seq<FoundFile<P>>|
        #[trigger] is_sorting(all, sorted) && group.images@ == uncropped(sorted);
    crate::sorting::law_sorting_keeps_values(all, files);
    assert forall|i: int, j: int| 0 <= i < j < files.len() implies text_leads(
        (#[trigger] files[i]).name@,
        (#[trigger] files[j]).name@,
    ) by {
        crate::sorting::law_sorted(all, files, i, j);
    }
    assert forall|f: FoundFile<P>| #[trigger] files.contains(f) <==> all.contains(f) by {}
    assert(shown_by_name(all, files, group.images@));
}

/// Each directory with screenshots has a group and no other has one, in the order of
/// the directories.
pub proof fn law_groups_of_directories<P>(
    a: Seq<LabelledDir<P>>,
    groups: Seq<Group<P>>,
    dir: LabelledDir<P>,
    group: Group<P>,
)
    requires
        are_groups_of(a, groups),
    ensures
        screenshots(dir.files@).len() == 0 ==> are_groups_of(a.push(dir), groups),
        screenshots(dir.files@).len() > 0 ==> (are_groups_of(a.push(dir), groups.push(group))
            <==> is_group_of(dir, group)),
        screenshots(dir.files@).len() > 0 ==> groups.len() < groups.push(group).len(),
{
    assert(a.push(dir).drop_last() =~= a);
    assert(groups.push(group).drop_last() =~= groups);
}

/// Groups are listed from the latest label to the earliest.
pub proof fn law_latest_group_first<P>(groups: Seq<Group<P>>, r: Seq<Group<P>>, i: int, j: int)
    requires
        is_sorting(groups, r),
        0 <= i < j < r.len(),
    ensures
        text_leads(r[j].label@, r[i].label@),
{
    crate::sorting::law_sorted(groups, r, i, j);
}

/// Two bytes of a mouse message as a signed number: it has the same two bytes, and
/// fits them.
pub proof fn law_signed_half(n: int)
    requires
        0 <= n < 0x1_0000,
    ensures
        -0x8000 <= signed_half(n) < 0x8000,
        signed_half(n) == n || signed_half(n) == n - 0x1_0000,
{
}

/// What stands above the picture says which transcript of how many and which image of
/// how many is shown, how large, and how many crops wait.
pub proof fn law_header<P>(state: EditorView<P>, zoom: Seq<char>)
    requires
        state.groups.len() > 0,
    ensures
        ({
            let h = header(state, zoom);
            let group = "Transcript "@ + decimal((state.group + 1) as nat) + "/"@ + decimal(
                state.groups.len(),
            ) + ": "@ + state.groups[state.group].label;
            let image = "    Image "@ + decimal((state.image + 1) as nat) + "/"@ + decimal(
                state.images().len(),
            );
            let rest = "    Zoom "@ + zoom + "%    "@ + decimal(queued(state.images()))
                + " crop(s) queued"@;
            h == group + image + rest
        }),
{
    let h = header(state, zoom);
    let group = "Transcript "@ + decimal((state.group + 1) as nat) + "/"@ + decimal(
        state.groups.len(),
    ) + ": "@ + state.groups[state.group].label;
    let image = "    Image "@ + decimal((state.image + 1) as nat) + "/"@ + decimal(
        state.images().len(),
    );
    let rest = "    Zoom "@ + zoom + "%    "@ + decimal(queued(state.images()))
        + " crop(s) queued"@;
    assert(h =~= group + image + rest);
}

/// The editor opens on the first screenshot of the first group, with nothing selected or
/// being selected, and shows none exactly if there is no group.
pub proof fn law_opened<P>(groups: Seq<GroupView<P>>, history: Seq<char>)
    requires
        all_have_images(groups),
    ensures
        ({
            let e = EditorView::opened(groups, history);
            &&& e.wf()
            &&& e.groups == groups
            &&& e.selection is None && e.drag_start is None
            &&& groups.len() > 0 ==> e.shown_at(e.image) == Some(groups[0].images[0])
            &&& groups.len() == 0 ==> e.shown_at(e.image) is None && e.status.len()
                == history.len() + 27 && e.status.skip(27) == history
        }),
{
    reveal_strlit("No screenshots found under ");
    let e = EditorView::opened(groups, history);
    if groups.len() == 0 {
        assert(e.status.skip(27) =~= history);
    }
}

/// A place shows a screenshot exactly if the group has one there, and then that one; and
/// an editor that is in order always shows one, if there is any group.
pub proof fn law_shown_at<P>(e: EditorView<P>, place: int)
    requires
        e.wf(),
        0 <= place,
    ensures
        e.shown_at(place) is Some <==> e.groups.len() > 0 && place < e.groups[e.group].images.len(),
        e.shown_at(place) matches Some(item) ==> item == e.groups[e.group].images[place],
        e.groups.len() > 0 ==> e.shown_at(e.image) is Some,
{
}

/// The crops to be saved are those of the group that is shown, and none if there is none.
pub proof fn law_pending_places<P>(e: EditorView<P>, i: int)
    requires
        e.wf(),
    ensures
        pending_places(e).contains(i) <==> e.shown_at(i) is Some && 0 <= i
            && e.shown_at(i)->0.crop is Some,
{
    if e.groups.len() > 0 {
        let images = e.images();
        law_pending(images);
        let all = queued_places(images);
        if pending_places(e).contains(i) {
            let k = choose|k: int| 0 <= k < all.len() && all[k] == i;
            assert(0 <= all[k] < images.len());
        }
    }
}

/// A crop fits exactly if there is a point in it, and all its points lie in the picture.
pub proof fn law_fits(crop: CropRect, width: u32, height: u32)
    ensures
        fits(crop, width, height) <==> 1 <= crop.width && 1 <= crop.height && crop.x + crop.width
            - 1 < width && crop.y + crop.height - 1 < height,
{
}

/// Moving goes round: to the screenshot, or to the first screenshot of the group, that many
/// places on, counted through the ends. Nothing stays selected, and all else stays.
pub proof fn law_moving_goes_round<P>(e: EditorView<P>, delta: int)
    requires
        e.wf(),
        e.groups.len() > 0,
    ensures
        ({
            let other = e.at_group(delta);
            let n = e.groups.len() as int;
            &&& 0 <= other.group < n
            &&& (e.group + delta - other.group) % n == 0
            &&& other.image == 0
            &&& other.selection is None && other.drag_start is None
            &&& other.groups == e.groups && other.status == e.status
        }),
        ({
            let other = e.at_image(delta);
            let n = e.images().len() as int;
            &&& 0 <= other.image < n
            &&& (e.image + delta - other.image) % n == 0
            &&& other.group == e.group
            &&& other.selection is None && other.drag_start is None
            &&& other.groups == e.groups && other.status == e.status
        }),
{
    lemma_goes_round(e.group + delta, e.groups.len() as int);
    lemma_goes_round(e.image + delta, e.images().len() as int);
}

proof fn lemma_goes_round(x: int, n: int)
    requires
        n > 0,
    ensures
        0 <= x % n < n,
        (x - x % n) % n == 0,
{
    vstd::arithmetic::div_mod::lemma_fundamental_div_mod(x, n);
    vstd::arithmetic::div_mod::lemma_mod_bound(x, n);
    assert(x - x % n == n * (x / n));
    assert(n * (x / n) == (x / n) * n) by (nonlinear_arith);
    vstd::arithmetic::div_mod::lemma_mod_multiples_basic(x / n, n);
}

} // verus!
