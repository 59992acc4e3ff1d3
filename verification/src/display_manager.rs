//! The displays that are connected, as they were last reported.

use vstd::prelude::*;

use crate::text::same_text;
use crate::WindowRestoreError;

verus! {

/// Position and size of a display, each measure held as the bit pattern of a
/// binary64 number.
#[derive(Debug, Clone, Copy, PartialEq, Eq, Structural)]
pub struct DisplayFrame {
    pub x: u64,
    pub y: u64,
    pub width: u64,
    pub height: u64,
}

/// One connected display.
#[derive(Debug, PartialEq, Eq)]
pub struct DisplayInfo {
    /// The identifier by which windows name their display.
    pub uuid: String,
    pub name: String,
    pub frame: DisplayFrame,
    pub is_main: bool,
    /// The scale factor, as the bit pattern of a binary64 number.
    pub scale_factor: u64,
}

/// The mathematical value of a `DisplayInfo`.
pub struct DisplayInfoView {
    pub uuid: Seq<char>,
    pub name: Seq<char>,
    pub frame: DisplayFrame,
    pub is_main: bool,
    pub scale_factor: u64,
}

impl View for DisplayInfo {
    type V = DisplayInfoView;

    open spec fn view(&self) -> DisplayInfoView {
        DisplayInfoView {
            uuid: self.uuid@,
            name: self.name@,
            frame: self.frame,
            is_main: self.is_main,
            scale_factor: self.scale_factor,
        }
    }
}

impl Clone for DisplayInfo {
    fn clone(&self) -> (r: Self)
        ensures
            r@ == self@,
    {
        DisplayInfo {
            uuid: self.uuid.clone(),
            name: self.name.clone(),
            frame: self.frame,
            is_main: self.is_main,
            scale_factor: self.scale_factor,
        }
    }
}

/// The views of the displays, in order.
pub open spec fn display_views(displays: Seq<DisplayInfo>) -> Seq<DisplayInfoView> {
    Seq::new(displays.len(), |i: int| displays[i]@)
}

/// The index of the first display at or after `from` with this identifier,
/// or the number of displays where there is none.
pub open spec fn position_of(displays: Seq<DisplayInfoView>, uuid: Seq<char>, from: int) -> int
    decreases displays.len() - from,
{
    if from < 0 || from >= displays.len() {
        displays.len() as int
    } else if displays[from].uuid == uuid {
        from
    } else {
        position_of(displays, uuid, from + 1)
    }
}

/// The index of the first main display at or after `from`, or the number of
/// displays where there is none.
pub open spec fn main_position(displays: Seq<DisplayInfoView>, from: int) -> int
    decreases displays.len() - from,
{
    if from < 0 || from >= displays.len() {
        displays.len() as int
    } else if displays[from].is_main {
        from
    } else {
        main_position(displays, from + 1)
    }
}

/// No identifier occurs twice.
pub open spec fn distinct_uuids(displays: Seq<DisplayInfoView>) -> bool {
    forall|i: int, j: int|
        0 <= i < j < displays.len() ==> (#[trigger] displays[i]).uuid != (#[trigger] displays[j]).uuid
}

/// `reported` with each display that repeats the identifier of an earlier
/// one left out.
pub open spec fn first_of_each(reported: Seq<DisplayInfoView>) -> Seq<DisplayInfoView>
    decreases reported.len(),
{
    if reported.len() == 0 {
        Seq::empty()
    } else {
        let earlier = first_of_each(reported.drop_last());
        if position_of(earlier, reported.last().uuid, 0) < earlier.len() {
            earlier
        } else {
            earlier.push(reported.last())
        }
    }
}

/// What `position_of` finds: an index in range, a display with the
/// identifier if the index is that of a display, and none with it before.
pub proof fn lemma_position_of(displays: Seq<DisplayInfoView>, uuid: Seq<char>, from: int)
    requires
        0 <= from <= displays.len(),
    ensures
        from <= position_of(displays, uuid, from) <= displays.len(),
        position_of(displays, uuid, from) < displays.len() ==> displays[position_of(
            displays,
            uuid,
            from,
        )].uuid == uuid,
        forall|j: int|
            from <= j < position_of(displays, uuid, from) ==> (#[trigger] displays[j]).uuid != uuid,
    decreases displays.len() - from,
{
    if from < displays.len() && displays[from].uuid != uuid {
        lemma_position_of(displays, uuid, from + 1);
    }
}

/// What `main_position` finds: an index in range, a main display if the
/// index is that of a display, and no main display before it.
pub proof fn lemma_main_position(displays: Seq<DisplayInfoView>, from: int)
    requires
        0 <= from <= displays.len(),
    ensures
        from <= main_position(displays, from) <= displays.len(),
        main_position(displays, from) < displays.len() ==> displays[main_position(
            displays,
            from,
        )].is_main,
        forall|j: int| from <= j < main_position(displays, from) ==> !(#[trigger] displays[j]).is_main,
    decreases displays.len() - from,
{
    if from < displays.len() && !displays[from].is_main {
        lemma_main_position(displays, from + 1);
    }
}

proof fn lemma_first_of_each_distinct(reported: Seq<DisplayInfoView>)
    ensures
        distinct_uuids(first_of_each(reported)),
    decreases reported.len(),
{
    if reported.len() > 0 {
        let earlier = first_of_each(reported.drop_last());
        lemma_first_of_each_distinct(reported.drop_last());
        lemma_position_of(earlier, reported.last().uuid, 0);
    }
}

/// The displays of the current topology. No identifier occurs twice.
pub struct DisplayManager {
    displays: Vec<DisplayInfo>,
}

impl View for DisplayManager {
    type V = Seq<DisplayInfoView>;

    closed spec fn view(&self) -> Seq<DisplayInfoView> {
        display_views(self.displays@)
    }
}

impl DisplayManager {
    #[verifier::type_invariant]
    spec fn well_formed(self) -> bool {
        distinct_uuids(display_views(self.displays@))
    }

    /// A topology without displays: none has been reported yet.
    pub fn new() -> (r: Result<Self, WindowRestoreError>)
        ensures
            r is Ok,
            r->Ok_0@.len() == 0,
    {
        Ok(Self::empty())
    }

    /// A topology without displays.
    pub fn empty() -> (r: Self)
        ensures
            r@.len() == 0,
    {
        DisplayManager { displays: Vec::new() }
    }

    /// Index of the first display at or after `from` with this identifier.
    fn find(displays: &Vec<DisplayInfo>, uuid: &str) -> (r: usize)
        ensures
            r == position_of(display_views(displays@), uuid@, 0),
            r <= displays.len(),
    {
        let ghost views = display_views(displays@);
        let n = displays.len();
        let mut i: usize = 0;
        while i < n
            invariant
                n == displays.len(),
                views == display_views(displays@),
                0 <= i <= n,
                position_of(views, uuid@, 0) == position_of(views, uuid@, i as int),
            decreases n - i,
        {
            assert(views[i as int] == displays[i as int]@);
            if same_text(displays[i].uuid.as_str(), uuid) {
                return i;
            }
            i = i + 1;
        }
        i
    }

    /// Replaces the topology by what has been reported. Of displays that
    /// share an identifier, the first is kept.
    pub fn refresh_displays(&mut self, reported: Vec<DisplayInfo>) -> (r: Result<
        (),
        WindowRestoreError,
    >)
        ensures
            r is Ok,
            final(self)@ == first_of_each(display_views(reported@)),
    {
        let ghost all = display_views(reported@);
        let mut kept: Vec<DisplayInfo> = Vec::new();
        let n = reported.len();
        for i in 0..n
            invariant
                n == reported.len(),
                all == display_views(reported@),
                display_views(kept@) == first_of_each(all.take(i as int)),
        {
            proof {
                assert(all.take(i + 1).drop_last() == all.take(i as int));
                assert(all.take(i + 1).last() == reported[i as int]@);
            }
            let at = Self::find(&kept, reported[i].uuid.as_str());
            if at == kept.len() {
                kept.push(reported[i].clone());
                assert(display_views(kept@) =~= first_of_each(all.take(i as int)).push(
                    reported[i as int]@,
                ));
            }
        }
        proof {
            assert(all.take(n as int) == all);
            lemma_first_of_each_distinct(all);
        }
        self.displays = kept;
        Ok(())
    }

    /// The number of connected displays.
    pub fn get_display_count(&self) -> (r: usize)
        ensures
            r == self@.len(),
    {
        self.displays.len()
    }

    /// Whether a display with this identifier is connected.
    pub fn display_exists(&self, uuid: &str) -> (r: bool)
        ensures
            r == (position_of(self@, uuid@, 0) < self@.len()),
            r == (exists|i: int| 0 <= i < self@.len() && (#[trigger] self@[i]).uuid == uuid@),
    {
        proof {
            lemma_position_of(self@, uuid@, 0);
        }
        Self::find(&self.displays, uuid) < self.displays.len()
    }

    /// The display with this identifier, if one is connected.
    pub fn get_display_by_uuid(&self, uuid: &str) -> (r: Option<&DisplayInfo>)
        ensures
            r is Some <==> position_of(self@, uuid@, 0) < self@.len(),
            r matches Some(d) ==> d@ == self@[position_of(self@, uuid@, 0)] && d@.uuid == uuid@,
    {
        proof {
            lemma_position_of(self@, uuid@, 0);
        }
        let at = Self::find(&self.displays, uuid);
        if at < self.displays.len() {
            Some(&self.displays[at])
        } else {
            None
        }
    }

    /// Index of the first main display.
    fn find_main(&self) -> (r: usize)
        ensures
            r == main_position(self@, 0),
            r <= self.displays.len(),
    {
        let ghost views = display_views(self.displays@);
        let n = self.displays.len();
        let mut i: usize = 0;
        while i < n
            invariant
                n == self.displays.len(),
                views == display_views(self.displays@),
                0 <= i <= n,
                main_position(views, 0) == main_position(views, i as int),
            decreases n - i,
        {
            assert(views[i as int] == self.displays[i as int]@);
            if self.displays[i].is_main {
                return i;
            }
            i = i + 1;
        }
        i
    }

    /// The main display: the first display that is marked as main, if any is.
    pub fn get_main_display(&self) -> (r: Option<&DisplayInfo>)
        ensures
            r is Some <==> main_position(self@, 0) < self@.len(),
            r matches Some(d) ==> d@ == self@[main_position(self@, 0)] && d@.is_main,
    {
        proof {
            lemma_main_position(self@, 0);
        }
        let at = self.find_main();
        if at < self.displays.len() {
            Some(&self.displays[at])
        } else {
            None
        }
    }

    /// All connected displays.
    pub fn get_displays(&self) -> (r: &Vec<DisplayInfo>)
        ensures
            display_views(r@) == self@,
            distinct_uuids(self@),
    {
        proof {
            use_type_invariant(self);
        }
        &self.displays
    }

    /// The display on which a window that names `uuid` is put: the display
    /// with that identifier, else the main display, else none.
    pub open spec fn target_of(displays: Seq<DisplayInfoView>, uuid: Seq<char>) -> Option<int> {
        if position_of(displays, uuid, 0) < displays.len() {
            Some(position_of(displays, uuid, 0))
        } else if main_position(displays, 0) < displays.len() {
            Some(main_position(displays, 0))
        } else {
            None
        }
    }

    /// The index of the display on which a window that names `uuid` is put.
    /// A window whose display is not connected goes to the main display; it
    /// goes nowhere only when no display is main either.
    pub fn resolve_target(&self, uuid: &str) -> (r: Option<usize>)
        ensures
            r is Some <==> Self::target_of(self@, uuid@) is Some,
            r matches Some(i) ==> Self::target_of(self@, uuid@) == Some(i as int) && i < self@.len(),
    {
        proof {
            lemma_position_of(self@, uuid@, 0);
            lemma_main_position(self@, 0);
        }
        let at = Self::find(&self.displays, uuid);
        if at < self.displays.len() {
            Some(at)
        } else {
            let main = self.find_main();
            if main < self.displays.len() {
                Some(main)
            } else {
                None
            }
        }
    }
}

} // verus!
