//! The index of the snapshots taken of the configuration.

use crate::clock::now_file_stamp;
use crate::text::{chars_of, string_from_chars, trimmed};
use vstd::prelude::*;
use vstd::string::*;

verus! {

/// What is known of one snapshot.
#[derive(Debug, Clone, PartialEq, Eq)]
pub struct SnapshotMeta {
    pub id: String,
    pub recipe_id: Option<String>,
    pub created_at: String,
    pub config_path: String,
    pub source: String,
    pub can_rollback: bool,
}

/// The snapshots, newest first.
#[derive(Debug, Default)]
pub struct SnapshotIndex {
    pub items: Vec<SnapshotMeta>,
}

/// Mathematical model of a [`SnapshotMeta`].
pub struct SnapshotView {
    pub id: Seq<char>,
    pub recipe_id: Option<Seq<char>>,
    pub created_at: Seq<char>,
    pub config_path: Seq<char>,
    pub source: Seq<char>,
    pub can_rollback: bool,
}

impl View for SnapshotMeta {
    type V = SnapshotView;

    open spec fn view(&self) -> SnapshotView {
        SnapshotView {
            id: self.id@,
            recipe_id: crate::session::opt_str_view(self.recipe_id),
            created_at: self.created_at@,
            config_path: self.config_path@,
            source: self.source@,
            can_rollback: self.can_rollback,
        }
    }
}

/// The views of a list of snapshots.
pub open spec fn snapshots_view(list: Seq<SnapshotMeta>) -> Seq<SnapshotView> {
    list.map_values(|m: SnapshotMeta| m@)
}

/// The most snapshots that the index keeps.
pub const MAX_SNAPSHOTS: usize = 200;

/// The recipe of a snapshot taken by hand.
pub open spec fn manual_recipe() -> Seq<char> {
    "manual"@
}

/// The recipe that a snapshot is named after.
pub open spec fn recipe_or_manual(recipe_id: Option<Seq<char>>) -> Seq<char> {
    match recipe_id {
        Some(r) => r,
        None => manual_recipe(),
    }
}

/// The identifier of a snapshot: its time, a hyphen, its recipe.
pub open spec fn snapshot_id(time: Seq<char>, recipe_id: Option<Seq<char>>) -> Seq<char> {
    time + "-"@ + recipe_or_manual(recipe_id)
}

/// A text with a hyphen in place of every colon.
pub open spec fn without_colons(s: Seq<char>) -> Seq<char> {
    s.map_values(
        |c: char|
            if c == ':' {
                '-'
            } else {
                c
            },
    )
}

/// The name of the file of a snapshot: its identifier without colons, with
/// the extension of JSON.
pub open spec fn snapshot_file_name(id: Seq<char>) -> Seq<char> {
    without_colons(id) + ".json"@
}

/// The name of a snapshot about to be taken.
#[derive(Debug, Clone, PartialEq, Eq)]
pub struct SnapshotName {
    /// The time the snapshot is taken at.
    pub created_at: String,
    /// The identifier of the snapshot.
    pub id: String,
    /// The name of its file in the directory of snapshots.
    pub file_name: String,
}

/// Whether a name is the one of a snapshot of `recipe_id` taken at `time`.
pub open spec fn is_name_of(name: SnapshotName, time: Seq<char>, recipe_id: Option<Seq<char>>) -> bool {
    &&& name.created_at@ == time
    &&& name.id@ == snapshot_id(time, recipe_id)
    &&& name.file_name@ == snapshot_file_name(name.id@)
}

/// Replaces every colon of a text by a hyphen.
pub fn replace_colons(s: &str) -> (r: String)
    ensures
        r@ == without_colons(s@),
{
    let text = chars_of(s);
    let mut out: Vec<char> = Vec::new();
    let mut i: usize = 0;
    while i < text.len()
        invariant
            i <= text.len(),
            out@ == without_colons(text@.take(i as int)),
        decreases text.len() - i,
    {
        let c = text[i];
        out.push(
            if c == ':' {
                '-'
            } else {
                c
            },
        );
        i = i + 1;
        assert(out@ =~= without_colons(text@.take(i as int)));
    }
    assert(text@.take(text@.len() as int) =~= text@);
    string_from_chars(&out)
}

/// Names the snapshot of `recipe_id` taken at `time`.
pub fn snapshot_name_at(time: &str, recipe_id: Option<&str>) -> (name: SnapshotName)
    ensures
        is_name_of(name, time@, crate::models::opt_text(recipe_id)),
{
    let recipe = match recipe_id {
        Some(r) => r,
        None => "manual",
    };
    let mut id = String::from_str(time);
    id.append("-");
    id.append(recipe);
    let file_name = replace_colons(id.as_str()).concat(".json");
    SnapshotName { created_at: String::from_str(time), id, file_name }
}

/// Names the snapshot of `recipe_id` taken now.
pub fn new_snapshot_name(recipe_id: Option<&str>) -> (name: SnapshotName)
    ensures
        is_name_of(name, name.created_at@, crate::models::opt_text(recipe_id)),
{
    let time = now_file_stamp();
    snapshot_name_at(time.as_str(), recipe_id)
}

/// Whether the text of an index file holds nothing but white space: such a
/// file stands for an empty index.
pub fn index_is_blank(text: &str) -> (b: bool)
    ensures
        b == (trimmed(text@).len() == 0),
{
    crate::text::trim(text).as_str().is_empty()
}

/// Whether `a` comes before `b` in the order of strings: at the first place
/// where they differ `a` has the smaller character, or `a` ends first.
pub open spec fn text_lt(a: Seq<char>, b: Seq<char>) -> bool
    decreases a.len(),
{
    if b.len() == 0 {
        false
    } else if a.len() == 0 {
        true
    } else if a[0] != b[0] {
        (a[0] as u32) < (b[0] as u32)
    } else {
        text_lt(a.drop_first(), b.drop_first())
    }
}

/// Tests whether one text comes before another in the order of strings.
pub fn text_before(a: &Vec<char>, b: &Vec<char>) -> (r: bool)
    ensures
        r == text_lt(a@, b@),
{
    let mut i: usize = 0;
    assert(a@.skip(0) =~= a@);
    assert(b@.skip(0) =~= b@);
    while i < a.len() && i < b.len()
        invariant
            i <= a.len(),
            i <= b.len(),
            text_lt(a@, b@) == text_lt(a@.skip(i as int), b@.skip(i as int)),
        decreases a.len() - i,
    {
        proof {
            assert(a@.skip(i as int)[0] == a@[i as int]);
            assert(b@.skip(i as int)[0] == b@[i as int]);
            assert(a@.skip(i as int).drop_first() =~= a@.skip(i + 1));
            assert(b@.skip(i as int).drop_first() =~= b@.skip(i + 1));
        }
        if a[i] != b[i] {
            return (a[i] as u32) < (b[i] as u32);
        }
        i = i + 1;
    }
    i < b.len()
}

/// A list that is newest first, with one more snapshot at its place: after
/// every snapshot that is not older than it.
pub open spec fn insert_newest_first(sorted: Seq<SnapshotView>, x: SnapshotView) -> Seq<
    SnapshotView,
>
    decreases sorted.len(),
{
    if sorted.len() == 0 {
        seq![x]
    } else if text_lt(sorted.last().created_at, x.created_at) {
        insert_newest_first(sorted.drop_last(), x).push(sorted.last())
    } else {
        sorted.push(x)
    }
}

/// A list put in order, newest first; snapshots of the same time stay in
/// the order they had.
pub open spec fn newest_first(list: Seq<SnapshotView>) -> Seq<SnapshotView>
    decreases list.len(),
{
    if list.len() == 0 {
        Seq::empty()
    } else {
        insert_newest_first(newest_first(list.drop_last()), list.last())
    }
}

/// Whether no snapshot of a list is older than one that follows it.
pub open spec fn is_newest_first(list: Seq<SnapshotView>) -> bool {
    forall|i: int, j: int|
        0 <= i < j < list.len() ==> !text_lt(
            (#[trigger] list[i]).created_at,
            (#[trigger] list[j]).created_at,
        )
}

/// Inserting after every snapshot that is older than the new one is
/// inserting at the place that [`insert_newest_first`] picks.
pub proof fn lemma_insert_at(sorted: Seq<SnapshotView>, x: SnapshotView, at: int)
    requires
        0 <= at <= sorted.len(),
        forall|k: int| at <= k < sorted.len() ==> text_lt(
            (#[trigger] sorted[k]).created_at,
            x.created_at,
        ),
        at > 0 ==> !text_lt(sorted[at - 1].created_at, x.created_at),
    ensures
        insert_newest_first(sorted, x) == sorted.insert(at, x),
    decreases sorted.len() - at,
{
    if sorted.len() == 0 {
        assert(sorted.insert(at, x) =~= seq![x]);
    } else if at == sorted.len() {
        assert(sorted.insert(at, x) =~= sorted.push(x));
    } else {
        assert(text_lt(sorted[sorted.len() - 1].created_at, x.created_at));
        let rest = sorted.drop_last();
        assert forall|k: int| at <= k < rest.len() implies text_lt(
            (#[trigger] rest[k]).created_at,
            x.created_at,
        ) by {
            assert(rest[k] == sorted[k]);
        }
        if at > 0 {
            assert(rest[at - 1] == sorted[at - 1]);
        }
        lemma_insert_at(rest, x, at);
        assert(rest.insert(at, x).push(sorted.last()) =~= sorted.insert(at, x));
    }
}

/// Of two texts at most one comes before the other.
pub proof fn lemma_text_lt_asymmetric(a: Seq<char>, b: Seq<char>)
    requires
        text_lt(a, b),
    ensures
        !text_lt(b, a),
    decreases a.len(),
{
    if a.len() > 0 && b.len() > 0 && a[0] == b[0] {
        lemma_text_lt_asymmetric(a.drop_first(), b.drop_first());
    }
}

/// Where `a` does not come before `b` and `b` not before `c`, `a` does not
/// come before `c`.
pub proof fn lemma_text_ge_transitive(a: Seq<char>, b: Seq<char>, c: Seq<char>)
    requires
        !text_lt(a, b),
        !text_lt(b, c),
    ensures
        !text_lt(a, c),
    decreases a.len(),
{
    if c.len() > 0 {
        assert(b.len() > 0);
        assert(a.len() > 0);
        vstd::utf8::char_u32_cast(a[0], a[0] as u32);
        vstd::utf8::char_u32_cast(b[0], b[0] as u32);
        vstd::utf8::char_u32_cast(c[0], c[0] as u32);
        if a[0] == b[0] && b[0] == c[0] {
            lemma_text_ge_transitive(a.drop_first(), b.drop_first(), c.drop_first());
        }
    }
}

/// The place that [`insert_newest_first`] picks for a snapshot.
pub open spec fn insert_place(sorted: Seq<SnapshotView>, x: SnapshotView) -> int
    decreases sorted.len(),
{
    if sorted.len() == 0 {
        0
    } else if text_lt(sorted.last().created_at, x.created_at) {
        insert_place(sorted.drop_last(), x)
    } else {
        sorted.len() as int
    }
}

/// Inserting a snapshot adds it at its place and moves nothing else:
/// every snapshot behind it is older, and the one before it is not.
pub proof fn lemma_insert_place(sorted: Seq<SnapshotView>, x: SnapshotView)
    ensures
        0 <= insert_place(sorted, x) <= sorted.len(),
        insert_newest_first(sorted, x) == sorted.insert(insert_place(sorted, x), x),
        forall|k: int|
            insert_place(sorted, x) <= k < sorted.len() ==> text_lt(
                (#[trigger] sorted[k]).created_at,
                x.created_at,
            ),
        insert_place(sorted, x) > 0 ==> !text_lt(
            sorted[insert_place(sorted, x) - 1].created_at,
            x.created_at,
        ),
    decreases sorted.len(),
{
    if sorted.len() > 0 && text_lt(sorted.last().created_at, x.created_at) {
        let rest = sorted.drop_last();
        lemma_insert_place(rest, x);
        let at = insert_place(rest, x);
        assert forall|k: int| at <= k < sorted.len() implies text_lt(
            (#[trigger] sorted[k]).created_at,
            x.created_at,
        ) by {
            if k < rest.len() {
                assert(rest[k] == sorted[k]);
            }
        }
        if at > 0 {
            assert(rest[at - 1] == sorted[at - 1]);
        }
    }
    lemma_insert_at(sorted, x, insert_place(sorted, x));
}

/// Inserting a snapshot into a list that is newest first leaves it newest
/// first.
pub proof fn lemma_insert_keeps_order(sorted: Seq<SnapshotView>, x: SnapshotView)
    requires
        is_newest_first(sorted),
    ensures
        is_newest_first(insert_newest_first(sorted, x)),
        insert_newest_first(sorted, x).len() == sorted.len() + 1,
{
    lemma_insert_place(sorted, x);
    let at = insert_place(sorted, x);
    let after = sorted.insert(at, x);
    assert forall|i: int, j: int| 0 <= i < j < after.len() implies !text_lt(
        (#[trigger] after[i]).created_at,
        (#[trigger] after[j]).created_at,
    ) by {
        if j < at {
            assert(after[i] == sorted[i] && after[j] == sorted[j]);
        } else if j == at {
            assert(after[i] == sorted[i]);
            if i < at - 1 {
                assert(!text_lt(sorted[i].created_at, sorted[at - 1].created_at));
                lemma_text_ge_transitive(
                    sorted[i].created_at,
                    sorted[at - 1].created_at,
                    x.created_at,
                );
            }
        } else if i == at {
            assert(after[j] == sorted[j - 1]);
            assert(text_lt(sorted[j - 1].created_at, x.created_at));
            lemma_text_lt_asymmetric(sorted[j - 1].created_at, x.created_at);
        } else if i < at {
            assert(after[i] == sorted[i] && after[j] == sorted[j - 1]);
        } else {
            assert(after[i] == sorted[i - 1] && after[j] == sorted[j - 1]);
        }
    }
}

/// A list put in order is newest first and as long as it was.
pub proof fn lemma_newest_first_is_ordered(list: Seq<SnapshotView>)
    ensures
        is_newest_first(newest_first(list)),
        newest_first(list).len() == list.len(),
    decreases list.len(),
{
    if list.len() > 0 {
        lemma_newest_first_is_ordered(list.drop_last());
        lemma_insert_keeps_order(newest_first(list.drop_last()), list.last());
    }
}

/// The index is always newest first and never holds more than
/// [`MAX_SNAPSHOTS`] snapshots.
pub proof fn lemma_index_with_bounds(items: Seq<SnapshotView>, meta: SnapshotView)
    ensures
        index_with(items, meta).len() <= MAX_SNAPSHOTS,
        is_newest_first(index_with(items, meta)),
{
    let sorted = newest_first(items.push(meta));
    lemma_newest_first_is_ordered(items.push(meta));
    if sorted.len() > MAX_SNAPSHOTS {
        let cut = sorted.subrange(0, MAX_SNAPSHOTS as int);
        assert forall|i: int, j: int| 0 <= i < j < cut.len() implies !text_lt(
            (#[trigger] cut[i]).created_at,
            (#[trigger] cut[j]).created_at,
        ) by {
            assert(cut[i] == sorted[i] && cut[j] == sorted[j]);
        }
    }
}

/// Copies what is known of a snapshot.
pub fn clone_meta(m: &SnapshotMeta) -> (copy: SnapshotMeta)
    ensures
        copy@ == m@,
{
    SnapshotMeta {
        id: m.id.clone(),
        recipe_id: match &m.recipe_id {
            Some(r) => Some(r.clone()),
            None => None,
        },
        created_at: m.created_at.clone(),
        config_path: m.config_path.clone(),
        source: m.source.clone(),
        can_rollback: m.can_rollback,
    }
}

/// Puts snapshots in order, newest first; snapshots of the same time stay
/// in the order they had.
pub fn sort_newest_first(list: &Vec<SnapshotMeta>) -> (sorted: Vec<SnapshotMeta>)
    ensures
        snapshots_view(sorted@) == newest_first(snapshots_view(list@)),
{
    let ghost all = snapshots_view(list@);
    let mut out: Vec<SnapshotMeta> = Vec::new();
    let mut i: usize = 0;
    assert(all.take(0) =~= Seq::<SnapshotView>::empty());
    assert(snapshots_view(out@) =~= newest_first(all.take(0)));
    while i < list.len()
        invariant
            i <= list.len(),
            all == snapshots_view(list@),
            out@.len() == i,
            snapshots_view(out@) == newest_first(all.take(i as int)),
        decreases list.len() - i,
    {
        let key = chars_of(list[i].created_at.as_str());
        let mut at: usize = out.len();
        let ghost sorted = snapshots_view(out@);
        while at > 0 && text_before(&chars_of(out[at - 1].created_at.as_str()), &key)
            invariant
                at <= out.len(),
                sorted == snapshots_view(out@),
                key@ == list@[i as int].created_at@,
                forall|k: int| at <= k < sorted.len() ==> text_lt(
                    (#[trigger] sorted[k]).created_at,
                    key@,
                ),
            decreases at,
        {
            at = at - 1;
        }
        let item = clone_meta(&list[i]);
        proof {
            lemma_insert_at(sorted, item@, at as int);
            assert(all.take(i + 1).drop_last() =~= all.take(i as int));
            assert(all.take(i + 1).last() == item@);
        }
        out.insert(at, item);
        assert(snapshots_view(out@) =~= sorted.insert(at as int, item@));
        i = i + 1;
    }
    assert(all.take(i as int) =~= all);
    out
}

/// The index after one more snapshot: the snapshots with the new one in
/// order, newest first, cut to the newest [`MAX_SNAPSHOTS`].
pub open spec fn index_with(items: Seq<SnapshotView>, meta: SnapshotView) -> Seq<SnapshotView> {
    let sorted = newest_first(items.push(meta));
    if sorted.len() > MAX_SNAPSHOTS {
        sorted.subrange(0, MAX_SNAPSHOTS as int)
    } else {
        sorted
    }
}

/// Files a snapshot in the index.
pub fn add_to_index(index: &mut SnapshotIndex, meta: SnapshotMeta)
    ensures
        snapshots_view(final(index).items@) == index_with(snapshots_view(old(index).items@), meta@),
{
    let ghost before = snapshots_view(index.items@);
    index.items.push(meta);
    assert(snapshots_view(index.items@) =~= before.push(meta@));
    let mut sorted = sort_newest_first(&index.items);
    assert(snapshots_view(sorted@).len() == sorted@.len());
    if sorted.len() > MAX_SNAPSHOTS {
        let ghost whole = snapshots_view(sorted@);
        sorted.truncate(MAX_SNAPSHOTS);
        assert(snapshots_view(sorted@) =~= whole.subrange(0, MAX_SNAPSHOTS as int));
    }
    index.items = sorted;
}

/// Files the snapshot `name` in the index and gives what the caller is
/// told of it. The index keeps the recipe as it was given; the caller is
/// told the recipe that the snapshot is named after.
pub fn add_snapshot(
    index: &mut SnapshotIndex,
    name: &SnapshotName,
    recipe_id: Option<String>,
    source: &str,
    rollbackable: bool,
    config_path: &str,
) -> (told: SnapshotMeta)
    ensures
        snapshots_view(final(index).items@) == index_with(
            snapshots_view(old(index).items@),
            SnapshotView {
                id: name.id@,
                recipe_id: crate::session::opt_str_view(recipe_id),
                created_at: name.created_at@,
                config_path: config_path@,
                source: source@,
                can_rollback: rollbackable,
            },
        ),
        told@ == (SnapshotView {
            id: name.id@,
            recipe_id: Some(recipe_or_manual(crate::session::opt_str_view(recipe_id))),
            created_at: name.created_at@,
            config_path: config_path@,
            source: source@,
            can_rollback: rollbackable,
        }),
{
    let named = match &recipe_id {
        Some(r) => r.clone(),
        None => String::from_str("manual"),
    };
    let filed = SnapshotMeta {
        id: name.id.clone(),
        recipe_id,
        created_at: name.created_at.clone(),
        config_path: String::from_str(config_path),
        source: String::from_str(source),
        can_rollback: rollbackable,
    };
    add_to_index(index, filed);
    SnapshotMeta {
        id: name.id.clone(),
        recipe_id: Some(named),
        created_at: name.created_at.clone(),
        config_path: String::from_str(config_path),
        source: String::from_str(source),
        can_rollback: rollbackable,
    }
}

} // verus!
