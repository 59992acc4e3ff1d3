//! The snapshot store: named layouts, kept as validated records.

use vstd::prelude::*;
use vstd::string::StringExecFns;

use crate::text::{
    contains_forbidden_name_char, is_blank_str, lemma_lex_lt_irreflexive, lemma_lex_lt_total,
    lemma_lex_lt_transitive, lex_lt, lex_order, LexOrder,
};
use crate::config::{data_path, data_root_parts, identities, text_of};
use crate::text::{has_forbidden_name_char, is_blank};
use crate::window_restorer::{
    first_faulty_window, layout_fault, lemma_windows_fault_free, name_fault, valid_name, Layout,
    LayoutView,
};
use crate::window_scanner::{clone_windows, window_views, WindowInfo, WindowInfoView};
use crate::{ValidationError, WindowRestoreError};

verus! {

/// The layouts of a store, by name.
pub type StoreView = Map<Seq<char>, LayoutView>;

/// The record that a save writes: its creation time is that of the record it
/// replaces, or the time of the save where it replaces none.
pub open spec fn assembled(
    store: StoreView,
    name: Seq<char>,
    windows: Seq<WindowInfoView>,
    now: Seq<char>,
) -> LayoutView {
    LayoutView {
        layout_name: name,
        created_at: if store.contains_key(name) {
            store[name].created_at
        } else {
            now
        },
        updated_at: now,
        windows: windows,
    }
}

/// The store after a save at the time `now`: unchanged where the name or a
/// window breaks a rule, else with the assembled record under `name`.
pub open spec fn saved(
    store: StoreView,
    name: Seq<char>,
    windows: Seq<WindowInfoView>,
    now: Seq<char>,
) -> StoreView {
    if layout_fault(name, windows) is Some {
        store
    } else {
        store.insert(name, assembled(store, name, windows, now))
    }
}

/// The store after a delete: unchanged where the name is invalid or absent.
pub open spec fn deleted(store: StoreView, name: Seq<char>) -> StoreView {
    if name_fault(name) is Some || !store.contains_key(name) {
        store
    } else {
        store.remove(name)
    }
}

/// Every record is well formed and filed under its own name.
pub open spec fn store_well_formed(store: StoreView) -> bool {
    forall|n: Seq<char>| #[trigger]
        store.contains_key(n) ==> store[n].well_formed() && store[n].layout_name == n
}

/// The names are in strictly ascending lexicographic order.
pub open spec fn ascending(names: Seq<Seq<char>>) -> bool {
    forall|i: int, j: int| 0 <= i < j < names.len() ==> lex_lt(names[i], names[j])
}

/// No name stands before a name that is below it.
pub open spec fn non_descending(names: Seq<Seq<char>>) -> bool {
    forall|i: int, j: int| 0 <= i < j < names.len() ==> !lex_lt(names[j], names[i])
}

/// The views of the records, in order.
pub open spec fn record_views(layouts: Seq<Layout>) -> Seq<LayoutView> {
    Seq::new(layouts.len(), |i: int| layouts[i]@)
}

/// The names of the records, in order.
pub open spec fn record_names(records: Seq<LayoutView>) -> Seq<Seq<char>> {
    Seq::new(records.len(), |i: int| records[i].layout_name)
}

/// The views of the strings, in order.
pub open spec fn string_views(strings: Seq<String>) -> Seq<Seq<char>> {
    Seq::new(strings.len(), |i: int| strings[i]@)
}

spec fn holds_name(records: Seq<LayoutView>, name: Seq<char>) -> bool {
    exists|i: int| 0 <= i < records.len() && (#[trigger] records[i]).layout_name == name
}

spec fn index_of(records: Seq<LayoutView>, name: Seq<char>) -> int {
    choose|i: int| 0 <= i < records.len() && (#[trigger] records[i]).layout_name == name
}

spec fn as_map(records: Seq<LayoutView>) -> StoreView {
    Map::new(|n: Seq<char>| holds_name(records, n), |n: Seq<char>| records[index_of(records, n)])
}

spec fn records_ok(records: Seq<LayoutView>) -> bool {
    &&& ascending(record_names(records))
    &&& forall|i: int| 0 <= i < records.len() ==> (#[trigger] records[i]).well_formed()
}

proof fn lemma_names_differ(records: Seq<LayoutView>, i: int, j: int)
    requires
        ascending(record_names(records)),
        0 <= i < records.len(),
        0 <= j < records.len(),
        i != j,
    ensures
        records[i].layout_name != records[j].layout_name,
{
    let names = record_names(records);
    if i < j {
        assert(lex_lt(names[i], names[j]));
        lemma_lex_lt_irreflexive(names[i]);
    } else {
        assert(lex_lt(names[j], names[i]));
        lemma_lex_lt_irreflexive(names[j]);
    }
}

proof fn lemma_as_map_at(records: Seq<LayoutView>, i: int)
    requires
        ascending(record_names(records)),
        0 <= i < records.len(),
    ensures
        as_map(records).contains_key(records[i].layout_name),
        as_map(records)[records[i].layout_name] == records[i],
{
    let name = records[i].layout_name;
    assert(holds_name(records, name));
    let k = index_of(records, name);
    if k != i {
        lemma_names_differ(records, i, k);
    }
}

proof fn lemma_as_map_well_formed(records: Seq<LayoutView>)
    requires
        records_ok(records),
    ensures
        store_well_formed(as_map(records)),
{
    assert forall|n: Seq<char>| #[trigger] as_map(records).contains_key(n) implies as_map(
        records,
    )[n].well_formed() && as_map(records)[n].layout_name == n by {
        let k = index_of(records, n);
        lemma_as_map_at(records, k);
    }
}

/// Where `name` belongs among ascending names: after the `at` names below
/// it, and before those above it.
spec fn belongs_at(names: Seq<Seq<char>>, name: Seq<char>, at: int) -> bool {
    &&& 0 <= at <= names.len()
    &&& forall|j: int| 0 <= j < at ==> lex_lt(#[trigger] names[j], name)
    &&& at < names.len() ==> names[at] == name || lex_lt(name, names[at])
}

proof fn lemma_absent(records: Seq<LayoutView>, name: Seq<char>, at: int)
    requires
        ascending(record_names(records)),
        belongs_at(record_names(records), name, at),
        at < records.len() ==> records[at].layout_name != name,
    ensures
        !holds_name(records, name),
        forall|j: int| at <= j < records.len() ==> lex_lt(name, #[trigger] record_names(records)[j]),
{
    let names = record_names(records);
    assert forall|j: int| at <= j < records.len() implies lex_lt(name, #[trigger] names[j]) by {
        if j > at {
            lemma_lex_lt_transitive(name, names[at], names[j]);
        }
    }
    assert forall|j: int| 0 <= j < records.len() implies (#[trigger] records[j]).layout_name
        != name by {
        lemma_lex_lt_irreflexive(name);
        if j < at {
            assert(lex_lt(names[j], name));
        } else {
            assert(lex_lt(name, names[j]));
        }
    }
}

proof fn lemma_insert(records: Seq<LayoutView>, at: int, record: LayoutView)
    requires
        records_ok(records),
        record.well_formed(),
        belongs_at(record_names(records), record.layout_name, at),
        at < records.len() ==> records[at].layout_name != record.layout_name,
    ensures
        records_ok(records.insert(at, record)),
        as_map(records.insert(at, record)) == as_map(records).insert(record.layout_name, record),
{
    let after = records.insert(at, record);
    let names = record_names(records);
    let names_after = record_names(after);
    lemma_absent(records, record.layout_name, at);
    assert forall|i: int, j: int| 0 <= i < j < names_after.len() implies lex_lt(
        names_after[i],
        names_after[j],
    ) by {
        if j < at {
            assert(lex_lt(names[i], names[j]));
        } else if j == at {
            assert(lex_lt(names[i], record.layout_name));
        } else if i < at {
            assert(lex_lt(names[i], names[j - 1]));
        } else if i == at {
            assert(lex_lt(record.layout_name, names[j - 1]));
        } else {
            assert(lex_lt(names[i - 1], names[j - 1]));
        }
    }
    assert forall|i: int| 0 <= i < after.len() implies (#[trigger] after[i]).well_formed() by {
        if i < at {
            assert(after[i] == records[i]);
        } else if i > at {
            assert(after[i] == records[i - 1]);
        }
    }
    let expected = as_map(records).insert(record.layout_name, record);
    assert forall|n: Seq<char>| as_map(after).contains_key(n) <==> expected.contains_key(n) by {
        if holds_name(after, n) {
            let k = index_of(after, n);
            if k < at {
                assert(records[k].layout_name == n);
            } else if k > at {
                assert(records[k - 1].layout_name == n);
            }
        }
        if holds_name(records, n) {
            let k = index_of(records, n);
            if k < at {
                assert(after[k].layout_name == n);
            } else {
                assert(after[k + 1].layout_name == n);
            }
        }
        if n == record.layout_name {
            assert(after[at].layout_name == n);
        }
    }
    assert forall|n: Seq<char>| as_map(after).contains_key(n) implies as_map(after)[n]
        == expected[n] by {
        let k = index_of(after, n);
        lemma_as_map_at(after, k);
        if k < at {
            lemma_as_map_at(records, k);
        } else if k > at {
            lemma_as_map_at(records, k - 1);
        }
    }
    assert(as_map(after) =~= expected);
}

proof fn lemma_update(records: Seq<LayoutView>, at: int, record: LayoutView)
    requires
        records_ok(records),
        record.well_formed(),
        0 <= at < records.len(),
        records[at].layout_name == record.layout_name,
    ensures
        records_ok(records.update(at, record)),
        as_map(records.update(at, record)) == as_map(records).insert(record.layout_name, record),
{
    let after = records.update(at, record);
    let names = record_names(records);
    let names_after = record_names(after);
    assert(names_after =~= names);
    assert forall|i: int| 0 <= i < after.len() implies (#[trigger] after[i]).well_formed() by {
        if i != at {
            assert(after[i] == records[i]);
        }
    }
    let expected = as_map(records).insert(record.layout_name, record);
    assert forall|n: Seq<char>| as_map(after).contains_key(n) <==> expected.contains_key(n) by {
        if holds_name(after, n) {
            let k = index_of(after, n);
            assert(records[k].layout_name == n);
        }
        if holds_name(records, n) {
            let k = index_of(records, n);
            assert(after[k].layout_name == n);
        }
        if n == record.layout_name {
            assert(after[at].layout_name == n);
        }
    }
    assert forall|n: Seq<char>| as_map(after).contains_key(n) implies as_map(after)[n]
        == expected[n] by {
        let k = index_of(after, n);
        lemma_as_map_at(after, k);
        if k != at {
            lemma_as_map_at(records, k);
            lemma_names_differ(records, k, at);
        }
    }
    assert(as_map(after) =~= expected);
}

proof fn lemma_remove(records: Seq<LayoutView>, at: int)
    requires
        records_ok(records),
        0 <= at < records.len(),
    ensures
        records_ok(records.remove(at)),
        as_map(records.remove(at)) == as_map(records).remove(records[at].layout_name),
{
    let after = records.remove(at);
    let names = record_names(records);
    let names_after = record_names(after);
    assert forall|i: int, j: int| 0 <= i < j < names_after.len() implies lex_lt(
        names_after[i],
        names_after[j],
    ) by {
        let p = if i < at {
            i
        } else {
            i + 1
        };
        let q = if j < at {
            j
        } else {
            j + 1
        };
        assert(lex_lt(names[p], names[q]));
    }
    assert forall|i: int| 0 <= i < after.len() implies (#[trigger] after[i]).well_formed() by {
        if i < at {
            assert(after[i] == records[i]);
        } else {
            assert(after[i] == records[i + 1]);
        }
    }
    let expected = as_map(records).remove(records[at].layout_name);
    assert forall|n: Seq<char>| as_map(after).contains_key(n) <==> expected.contains_key(n) by {
        if holds_name(after, n) {
            let k = index_of(after, n);
            if k < at {
                assert(records[k].layout_name == n);
                lemma_names_differ(records, k, at);
            } else {
                assert(records[k + 1].layout_name == n);
                lemma_names_differ(records, k + 1, at);
            }
        }
        if holds_name(records, n) && n != records[at].layout_name {
            let k = index_of(records, n);
            if k < at {
                assert(after[k].layout_name == n);
            } else {
                assert(after[k - 1].layout_name == n);
            }
        }
    }
    assert forall|n: Seq<char>| as_map(after).contains_key(n) implies as_map(after)[n]
        == expected[n] by {
        let k = index_of(after, n);
        lemma_as_map_at(after, k);
        if k < at {
            lemma_as_map_at(records, k);
            lemma_names_differ(records, k, at);
        } else {
            lemma_as_map_at(records, k + 1);
            lemma_names_differ(records, k + 1, at);
        }
    }
    assert(as_map(after) =~= expected);
}

proof fn lemma_views_insert(layouts: Seq<Layout>, at: int, layout: Layout)
    requires
        0 <= at <= layouts.len(),
    ensures
        record_views(layouts.insert(at, layout)) == record_views(layouts).insert(at, layout@),
{
    assert(record_views(layouts.insert(at, layout)) =~= record_views(layouts).insert(at, layout@));
}

proof fn lemma_views_update(layouts: Seq<Layout>, at: int, layout: Layout)
    requires
        0 <= at < layouts.len(),
    ensures
        record_views(layouts.update(at, layout)) == record_views(layouts).update(at, layout@),
{
    assert(record_views(layouts.update(at, layout)) =~= record_views(layouts).update(at, layout@));
}

proof fn lemma_views_remove(layouts: Seq<Layout>, at: int)
    requires
        0 <= at < layouts.len(),
    ensures
        record_views(layouts.remove(at)) == record_views(layouts).remove(at),
{
    assert(record_views(layouts.remove(at)) =~= record_views(layouts).remove(at));
}

proof fn lemma_ordered_insert(names: Seq<Seq<char>>, at: int, name: Seq<char>)
    requires
        non_descending(names),
        0 <= at <= names.len(),
        forall|j: int| 0 <= j < at ==> lex_lt(#[trigger] names[j], name),
        at < names.len() ==> !lex_lt(names[at], name),
    ensures
        non_descending(names.insert(at, name)),
{
    let after = names.insert(at, name);
    lemma_lex_lt_irreflexive(name);
    assert forall|i: int, j: int| 0 <= i < j < after.len() implies !lex_lt(after[j], after[i]) by {
        if j < at {
            assert(!lex_lt(names[j], names[i]));
        } else if j == at {
            assert(lex_lt(names[i], name));
            if lex_lt(name, names[i]) {
                lemma_lex_lt_transitive(name, names[i], name);
            }
        } else if i < at {
            assert(!lex_lt(names[j - 1], names[i]));
        } else if i == at {
            // `names[at]` is not below `name`, and `names[j - 1]` is not
            // below `names[at]`
            if lex_lt(names[j - 1], name) {
                if j - 1 > at {
                    assert(!lex_lt(names[j - 1], names[at]));
                    lemma_lex_lt_total(names[at], names[j - 1]);
                    if lex_lt(names[at], names[j - 1]) {
                        lemma_lex_lt_transitive(names[at], names[j - 1], name);
                    }
                }
            }
        } else {
            assert(!lex_lt(names[j - 1], names[i - 1]));
        }
    }
}

/// `chrono::Utc::now` and `DateTime::to_rfc3339`: the current time in UTC,
/// written as an RFC 3339 timestamp. Nothing is claimed of the text, which
/// depends on the clock.
#[verifier::external_body]
fn current_timestamp() -> String {
    chrono::Utc::now().to_rfc3339()
}

/// A layout that breaks no rule is found under its name after it is saved,
/// with the name and the windows that were saved, whatever the store held.
pub proof fn law_save_then_load(
    store: StoreView,
    name: Seq<char>,
    windows: Seq<WindowInfoView>,
    now: Seq<char>,
)
    requires
        layout_fault(name, windows) is None,
    ensures
        valid_name(name),
        saved(store, name, windows, now).contains_key(name),
        saved(store, name, windows, now)[name].layout_name == name,
        saved(store, name, windows, now)[name].windows == windows,
        saved(store, name, windows, now)[name].updated_at == now,
        !store.contains_key(name) ==> saved(store, name, windows, now)[name].created_at == now,
{
}

/// A second save under a name keeps the creation time of the first and
/// takes the update time of the second: the update time advances as the
/// times of the saves do.
pub proof fn law_second_save_keeps_creation_time(
    store: StoreView,
    name: Seq<char>,
    first: Seq<WindowInfoView>,
    first_time: Seq<char>,
    second: Seq<WindowInfoView>,
    second_time: Seq<char>,
)
    requires
        layout_fault(name, first) is None,
        layout_fault(name, second) is None,
    ensures
        ({
            let once = saved(store, name, first, first_time);
            let twice = saved(once, name, second, second_time);
            &&& twice[name].created_at == once[name].created_at
            &&& once[name].updated_at == first_time
            &&& twice[name].updated_at == second_time
            &&& twice[name].windows == second
            &&& lex_lt(first_time, second_time) ==> lex_lt(
                once[name].updated_at,
                twice[name].updated_at,
            )
        }),
{
}

/// A save changes the record of its name and no other.
pub proof fn law_save_leaves_others(
    store: StoreView,
    name: Seq<char>,
    windows: Seq<WindowInfoView>,
    now: Seq<char>,
    other: Seq<char>,
)
    requires
        other != name,
    ensures
        saved(store, name, windows, now).contains_key(other) == store.contains_key(other),
        saved(store, name, windows, now)[other] == store[other],
{
}

/// A name that holds a forbidden character is refused by save, load and
/// delete as a validation error, and the store stays as it is.
pub proof fn law_forbidden_name_is_refused(
    store: StoreView,
    name: Seq<char>,
    windows: Seq<WindowInfoView>,
    now: Seq<char>,
)
    requires
        has_forbidden_name_char(name),
    ensures
        name_fault(name) is Some,
        layout_fault(name, windows) == name_fault(name),
        !valid_name(name),
        saved(store, name, windows, now) == store,
        deleted(store, name) == store,
{
}

/// A window whose frame holds a measure that is not finite, or a width or
/// height below zero, makes the validation fail, and a save of it writes
/// nothing.
pub proof fn law_bad_frame_is_refused(
    store: StoreView,
    name: Seq<char>,
    windows: Seq<WindowInfoView>,
    index: int,
    now: Seq<char>,
)
    requires
        0 <= index < windows.len(),
        !windows[index].frame.well_formed(),
    ensures
        layout_fault(name, windows) is Some,
        saved(store, name, windows, now) == store,
{
    lemma_windows_fault_free(windows);
    assert(!windows[index].well_formed());
}

/// A window whose application identity is empty or white space makes the
/// validation fail, and a save of it writes nothing.
pub proof fn law_blank_identity_is_refused(
    store: StoreView,
    name: Seq<char>,
    windows: Seq<WindowInfoView>,
    index: int,
    now: Seq<char>,
)
    requires
        0 <= index < windows.len(),
        is_blank(windows[index].bundle_id),
    ensures
        layout_fault(name, windows) is Some,
        saved(store, name, windows, now) == store,
{
    lemma_windows_fault_free(windows);
    assert(!windows[index].well_formed());
}

/// A delete of a name that the store does not hold removes nothing; the
/// call reports a valid such name as not found.
pub proof fn law_delete_absent(store: StoreView, name: Seq<char>)
    requires
        !store.contains_key(name),
    ensures
        deleted(store, name) == store,
{
}

/// After the delete of its only layout the store is empty, so that the
/// list of its names is empty too.
pub proof fn law_delete_only_layout(store: StoreView, name: Seq<char>)
    requires
        valid_name(name),
        store.dom() == set![name],
    ensures
        deleted(store, name) == Map::<Seq<char>, LayoutView>::empty(),
{
    assert(store.contains_key(name));
    assert(deleted(store, name) =~= Map::<Seq<char>, LayoutView>::empty());
}

/// What was saved and then deleted is gone, and a layout that was not
/// there before leaves the store as it was.
pub proof fn law_save_then_delete(
    store: StoreView,
    name: Seq<char>,
    windows: Seq<WindowInfoView>,
    now: Seq<char>,
)
    requires
        layout_fault(name, windows) is None,
    ensures
        !deleted(saved(store, name, windows, now), name).contains_key(name),
        !store.contains_key(name) ==> deleted(saved(store, name, windows, now), name) == store,
{
    if !store.contains_key(name) {
        assert(deleted(saved(store, name, windows, now), name) =~= store);
    }
}

/// Saves and deletes keep every record well formed and under its own name.
pub proof fn law_store_stays_well_formed(
    store: StoreView,
    name: Seq<char>,
    windows: Seq<WindowInfoView>,
    now: Seq<char>,
)
    requires
        store_well_formed(store),
    ensures
        store_well_formed(saved(store, name, windows, now)),
        store_well_formed(deleted(store, name)),
{
    let after = saved(store, name, windows, now);
    if layout_fault(name, windows) is None {
        assembled(store, name, windows, now).lemma_fault_free_is_well_formed();
    }
    assert forall|n: Seq<char>| #[trigger] after.contains_key(n) implies after[n].well_formed()
        && after[n].layout_name == n by {
        if n != name {
            assert(store.contains_key(n));
        }
    }
    let less = deleted(store, name);
    assert forall|n: Seq<char>| #[trigger] less.contains_key(n) implies less[n].well_formed()
        && less[n].layout_name == n by {
        assert(store.contains_key(n));
    }
}

/// The snapshot store. It holds its records in ascending order of their
/// names, each under a name of its own, and each well formed.
pub struct LayoutManager {
    layouts: Vec<Layout>,
}

impl View for LayoutManager {
    type V = StoreView;

    closed spec fn view(&self) -> StoreView {
        as_map(record_views(self.layouts@))
    }
}

impl LayoutManager {
    #[verifier::type_invariant]
    spec fn well_formed(self) -> bool {
        records_ok(record_views(self.layouts@))
    }

    /// The names of the stored layouts, in the order in which they are
    /// listed.
    pub closed spec fn names(&self) -> Seq<Seq<char>> {
        record_names(record_views(self.layouts@))
    }

    /// An empty store.
    pub fn new() -> (r: Result<Self, WindowRestoreError>)
        ensures
            r is Ok,
            r->Ok_0@ == Map::<Seq<char>, LayoutView>::empty(),
    {
        let store = LayoutManager { layouts: Vec::new() };
        assert(store@ =~= Map::<Seq<char>, LayoutView>::empty());
        Ok(store)
    }

    /// Where the layouts are kept, part by part: `layouts` in the directory
    /// of the application's data.
    pub fn get_layouts_dir(
        custom: Option<String>,
        user_data_dir: Option<String>,
        current_dir: String,
    ) -> (parts: Vec<String>)
        ensures
            identities(parts@) == data_root_parts(
                text_of(custom),
                text_of(user_data_dir),
                current_dir@,
            ).push("layouts"@),
    {
        data_path(custom, user_data_dir, current_dir, "layouts")
    }

    /// The name of the file that holds the layout `name`.
    pub fn layout_file_name(name: &str) -> (r: String)
        ensures
            r@ == name@ + ".json"@,
    {
        let mut file = String::from_str(name);
        file.append(".json");
        file
    }

    /// The names in ascending lexicographic order: each as often as it was
    /// given, and none before a name that is below it.
    pub fn sort_names(names: Vec<String>) -> (r: Vec<String>)
        ensures
            non_descending(string_views(r@)),
            string_views(r@).to_multiset() == string_views(names@).to_multiset(),
    {
        let ghost given = string_views(names@);
        let mut sorted: Vec<String> = Vec::new();
        let n = names.len();
        assert(string_views(sorted@) =~= given.take(0));
        for i in 0..n
            invariant
                n == names.len(),
                given == string_views(names@),
                non_descending(string_views(sorted@)),
                string_views(sorted@).to_multiset() == given.take(i as int).to_multiset(),
        {
            let ghost before = string_views(sorted@);
            let ghost name = names[i as int]@;
            let m = sorted.len();
            let mut at: usize = 0;
            let mut stop = false;
            while at < m && !stop
                invariant
                    m == sorted.len(),
                    i < n,
                    n == names.len(),
                    name == names[i as int]@,
                    before == string_views(sorted@),
                    0 <= at <= m,
                    forall|j: int| 0 <= j < at ==> lex_lt(#[trigger] before[j], name),
                    stop ==> at < m && !lex_lt(before[at as int], name),
                decreases m - at + if stop { 0int } else { 1int },
            {
                assert(before[at as int] == sorted[at as int]@);
                match lex_order(sorted[at].as_str(), names[i].as_str()) {
                    LexOrder::Before => {
                        at = at + 1;
                    },
                    _ => {
                        stop = true;
                    },
                }
            }
            sorted.insert(at, names[i].clone());
            proof {
                assert(string_views(sorted@) =~= before.insert(at as int, name));
                assert(given.take(i + 1) =~= given.take(i as int).push(name));
                vstd::seq_lib::to_multiset_insert(before, at as int, name);
                vstd::seq_lib::to_multiset_build(given.take(i as int), name);
                assert(before.insert(at as int, name).to_multiset() =~= given.take(
                    i + 1,
                ).to_multiset());
                lemma_ordered_insert(before, at as int, name);
            }
        }
        assert(given.take(n as int) =~= given);
        sorted
    }

    /// Checks a layout name: it must not be blank, and must hold no
    /// forbidden character.
    pub fn validate_layout_name(name: &str) -> (r: Result<(), ValidationError>)
        ensures
            r is Ok <==> valid_name(name@),
            r matches Err(e) ==> name_fault(name@) == Some(e),
    {
        if is_blank_str(name) {
            Err(ValidationError::EmptyName)
        } else if contains_forbidden_name_char(name) {
            Err(ValidationError::ForbiddenNameCharacter)
        } else {
            Ok(())
        }
    }

    /// Checks a name and windows as a save and a load do: the name first, then
    /// the windows in order, stopping at the first rule that is broken.
    pub fn validate_parts(name: &str, windows: &[WindowInfo]) -> (r: Result<
        (),
        ValidationError,
    >)
        ensures
            r is Ok <==> layout_fault(name@, window_views(windows@)) is None,
            r matches Err(e) ==> layout_fault(name@, window_views(windows@)) == Some(e),
    {
        match Self::validate_layout_name(name) {
            Err(e) => {
                return Err(e);
            },
            Ok(()) => {},
        }
        let ghost views = window_views(windows@);
        let n = windows.len();
        for i in 0..n
            invariant
                n == windows.len(),
                views == window_views(windows@),
                name_fault(name@) is None,
                first_faulty_window(views, 0) == first_faulty_window(views, i as int),
        {
            match windows[i].check() {
                Some(fault) => {
                    return Err(ValidationError::Window { index: i, fault });
                },
                None => {},
            }
        }
        Ok(())
    }

    /// Checks a whole layout: its name, then its windows in order. The first
    /// rule that is broken is reported, with the index of the window that
    /// breaks it.
    pub fn validate_layout(&self, layout: &Layout) -> (r: Result<(), ValidationError>)
        ensures
            r is Ok <==> layout@.well_formed(),
            r is Ok <==> layout@.fault() is None,
            r matches Err(e) ==> layout@.fault() == Some(e),
    {
        proof {
            layout@.lemma_fault_free_is_well_formed();
        }
        Self::validate_parts(layout.layout_name.as_str(), layout.windows.as_slice())
    }

    /// Where `name` is, or belongs: the index of the first record whose name
    /// is not below `name`, and whether that record has this name.
    fn locate(&self, name: &str) -> (r: (usize, bool))
        ensures
            belongs_at(self.names(), name@, r.0 as int),
            r.1 <==> self@.contains_key(name@),
            r.1 ==> r.0 < self.layouts.len() && self.layouts[r.0 as int]@.layout_name == name@,
    {
        proof {
            use_type_invariant(self);
        }
        let ghost records = record_views(self.layouts@);
        let ghost names = record_names(records);
        let n = self.layouts.len();
        let mut i: usize = 0;
        while i < n
            invariant
                n == self.layouts.len(),
                records == record_views(self.layouts@),
                names == record_names(records),
                ascending(names),
                0 <= i <= n,
                forall|j: int| 0 <= j < i ==> lex_lt(#[trigger] names[j], name@),
            decreases n - i,
        {
            assert(names[i as int] == self.layouts[i as int]@.layout_name);
            match lex_order(self.layouts[i].layout_name.as_str(), name) {
                LexOrder::Before => {},
                LexOrder::Same => {
                    assert(holds_name(records, name@));
                    return (i, true);
                },
                LexOrder::After => {
                    proof {
                        lemma_lex_lt_irreflexive(name@);
                        lemma_absent(records, name@, i as int);
                    }
                    return (i, false);
                },
            }
            i = i + 1;
        }
        proof {
            lemma_absent(records, name@, i as int);
        }
        (i, false)
    }

    /// Whether the store holds a layout of this name. The name is not checked
    /// against the rules: a name that breaks one is simply absent.
    pub fn layout_exists(&self, name: &str) -> (r: bool)
        ensures
            r == self@.contains_key(name@),
    {
        let (_, found) = self.locate(name);
        found
    }

    /// Files `layout` under its name, in place of the record of that name if
    /// there is one.
    fn put(&mut self, layout: Layout)
        requires
            layout@.well_formed(),
        ensures
            final(self)@ == old(self)@.insert(layout@.layout_name, layout@),
            store_well_formed(final(self)@),
    {
        let (at, found) = self.locate(layout.layout_name.as_str());
        proof {
            use_type_invariant(&*self);
            let records = record_views(self.layouts@);
            if found {
                lemma_views_update(self.layouts@, at as int, layout);
                lemma_update(records, at as int, layout@);
            } else {
                lemma_views_insert(self.layouts@, at as int, layout);
                lemma_insert(records, at as int, layout@);
            }
        }
        let mut layouts: Vec<Layout> = Vec::new();
        core::mem::swap(&mut self.layouts, &mut layouts);
        if found {
            layouts.set(at, layout);
        } else {
            layouts.insert(at, layout);
        }
        self.layouts = layouts;
        proof {
            use_type_invariant(&*self);
            lemma_as_map_well_formed(record_views(self.layouts@));
        }
    }

    /// Saves `windows` under `name` at the time `now`. The name and the
    /// windows are checked first, and nothing is written where one of them
    /// breaks a rule. A record that is replaced hands its creation time on
    /// to the new one.
    pub fn save_layout_at(&mut self, name: &str, windows: &[WindowInfo], now: &str) -> (r: Result<
        (),
        WindowRestoreError,
    >)
        ensures
            final(self)@ == saved(old(self)@, name@, window_views(windows@), now@),
            store_well_formed(final(self)@),
            r is Ok <==> layout_fault(name@, window_views(windows@)) is None,
            r matches Err(e) ==> e matches WindowRestoreError::Validation(v) && layout_fault(
                name@,
                window_views(windows@),
            ) == Some(v),
    {
        proof {
            use_type_invariant(&*self);
            lemma_as_map_well_formed(record_views(self.layouts@));
        }
        match Self::validate_parts(name, windows) {
            Err(e) => {
                return Err(WindowRestoreError::Validation(e));
            },
            Ok(()) => {},
        }
        let (at, found) = self.locate(name);
        let created_at = if found {
            proof {
                use_type_invariant(&*self);
                lemma_as_map_at(record_views(self.layouts@), at as int);
            }
            self.layouts[at].created_at.clone()
        } else {
            now.to_owned()
        };
        let layout = Layout {
            layout_name: name.to_owned(),
            created_at,
            updated_at: now.to_owned(),
            windows: clone_windows(windows),
        };
        proof {
            layout@.lemma_fault_free_is_well_formed();
        }
        self.put(layout);
        Ok(())
    }

    /// Saves `windows` under `name` at the current time, as `save_layout_at`
    /// does. The time is read from the clock, so the contract speaks of it as
    /// of the update time that the new record holds.
    pub fn save_layout(&mut self, name: &str, windows: &[WindowInfo]) -> (r: Result<
        (),
        WindowRestoreError,
    >)
        ensures
            r is Ok <==> layout_fault(name@, window_views(windows@)) is None,
            r matches Err(e) ==> e matches WindowRestoreError::Validation(v) && layout_fault(
                name@,
                window_views(windows@),
            ) == Some(v),
            store_well_formed(final(self)@),
            r is Err ==> final(self)@ == old(self)@,
            r is Ok ==> final(self)@.contains_key(name@) && final(self)@ == saved(
                old(self)@,
                name@,
                window_views(windows@),
                final(self)@[name@].updated_at,
            ),
    {
        let now = current_timestamp();
        self.save_layout_at(name, windows, now.as_str())
    }

    /// Takes in a record that was read from storage: it is checked like any
    /// other layout, and filed under its own name where it breaks no rule.
    pub fn import_layout(&mut self, layout: Layout) -> (r: Result<(), WindowRestoreError>)
        ensures
            r is Ok <==> layout@.well_formed(),
            r matches Err(e) ==> e matches WindowRestoreError::Validation(v) && layout@.fault()
                == Some(v),
            r is Ok ==> final(self)@ == old(self)@.insert(layout@.layout_name, layout@),
            r is Err ==> final(self)@ == old(self)@,
            store_well_formed(final(self)@),
    {
        proof {
            use_type_invariant(&*self);
            lemma_as_map_well_formed(record_views(self.layouts@));
        }
        match self.validate_layout(&layout) {
            Err(e) => Err(WindowRestoreError::Validation(e)),
            Ok(()) => {
                self.put(layout);
                Ok(())
            },
        }
    }

    /// The layout stored under `name`. The name is checked first; a valid
    /// name that the store does not hold is reported as not found.
    pub fn load_layout(&self, name: &str) -> (r: Result<Layout, WindowRestoreError>)
        ensures
            r is Ok <==> valid_name(name@) && self@.contains_key(name@),
            r matches Ok(layout) ==> layout@ == self@[name@] && layout@.well_formed()
                && layout@.layout_name == name@,
            r matches Err(e) ==> match name_fault(name@) {
                Some(v) => e matches WindowRestoreError::Validation(w) && w == v,
                None => e matches WindowRestoreError::LayoutNotFound(n) && n@ == name@,
            },
    {
        match Self::validate_layout_name(name) {
            Err(e) => {
                return Err(WindowRestoreError::Validation(e));
            },
            Ok(()) => {},
        }
        let (at, found) = self.locate(name);
        if found {
            proof {
                use_type_invariant(self);
                lemma_as_map_at(record_views(self.layouts@), at as int);
            }
            Ok(self.layouts[at].clone())
        } else {
            Err(WindowRestoreError::LayoutNotFound(name.to_owned()))
        }
    }

    /// The names of the stored layouts in ascending lexicographic order, each
    /// once. An empty store gives an empty list.
    pub fn list_layouts(&self) -> (r: Result<Vec<String>, WindowRestoreError>)
        ensures
            r is Ok,
            ascending(string_views(r->Ok_0@)),
            forall|n: Seq<char>| string_views(r->Ok_0@).contains(n) <==> self@.contains_key(n),
            self@ == Map::<Seq<char>, LayoutView>::empty() ==> r->Ok_0@.len() == 0,
    {
        proof {
            use_type_invariant(self);
        }
        let ghost records = record_views(self.layouts@);
        let mut names: Vec<String> = Vec::new();
        let n = self.layouts.len();
        for i in 0..n
            invariant
                n == self.layouts.len(),
                records == record_views(self.layouts@),
                names.len() == i,
                forall|j: int| 0 <= j < i ==> names[j]@ == records[j].layout_name,
        {
            assert(records[i as int] == self.layouts[i as int]@);
            names.push(self.layouts[i].layout_name.clone());
        }
        proof {
            let listed = string_views(names@);
            assert(listed =~= record_names(records));
            assert forall|m: Seq<char>| listed.contains(m) <==> self@.contains_key(m) by {
                if listed.contains(m) {
                    let k = choose|k: int| 0 <= k < listed.len() && listed[k] == m;
                    assert(records[k].layout_name == m);
                }
                if holds_name(records, m) {
                    let k = index_of(records, m);
                    assert(listed[k] == m);
                }
            }
            if n > 0 {
                lemma_as_map_at(records, 0);
            }
        }
        Ok(names)
    }

    /// Removes the layout stored under `name`. The name is checked first; a
    /// valid name that the store does not hold is reported as not found, and
    /// nothing is removed.
    pub fn delete_layout(&mut self, name: &str) -> (r: Result<(), WindowRestoreError>)
        ensures
            final(self)@ == deleted(old(self)@, name@),
            store_well_formed(final(self)@),
            r is Ok <==> valid_name(name@) && old(self)@.contains_key(name@),
            r matches Err(e) ==> match name_fault(name@) {
                Some(v) => e matches WindowRestoreError::Validation(w) && w == v,
                None => e matches WindowRestoreError::LayoutNotFound(n) && n@ == name@,
            },
    {
        proof {
            use_type_invariant(&*self);
            lemma_as_map_well_formed(record_views(self.layouts@));
        }
        match Self::validate_layout_name(name) {
            Err(e) => {
                return Err(WindowRestoreError::Validation(e));
            },
            Ok(()) => {},
        }
        let (at, found) = self.locate(name);
        if found {
            proof {
                use_type_invariant(&*self);
                lemma_views_remove(self.layouts@, at as int);
                lemma_remove(record_views(self.layouts@), at as int);
            }
            let mut layouts: Vec<Layout> = Vec::new();
            core::mem::swap(&mut self.layouts, &mut layouts);
            let _ = layouts.remove(at);
            self.layouts = layouts;
            proof {
                use_type_invariant(&*self);
                lemma_as_map_well_formed(record_views(self.layouts@));
            }
            Ok(())
        } else {
            Err(WindowRestoreError::LayoutNotFound(name.to_owned()))
        }
    }
}

} // verus!
