//! What holds of the library as a whole, stated over the models that the
//! contracts of its functions use.
use vstd::prelude::*;
use crate::builder::{lemma_table_of, table_of, BuilderView};
use crate::configs::CommentsConfigView;
use crate::errors::TodoRError;
use crate::maps::{lemma_with_keys, MultiMapView};
use crate::text::uppercase;
use crate::todor::{scanned, TodoR, TodoRView};

verus! {

/// Scanning is determined by the content and the configuration: two scans of
/// the same content under the same extension, by instances with the same tags
/// and the same comment types, succeed or fail together, and where they
/// succeed they find the same annotations. What was scanned or removed before
/// either scan makes no difference.
pub proof fn lemma_scan_is_repeatable(
    before1: TodoRView,
    after1: TodoRView,
    r1: Result<(), TodoRError>,
    filepath1: Seq<char>,
    before2: TodoRView,
    after2: TodoRView,
    r2: Result<(), TodoRError>,
    filepath2: Seq<char>,
    ext: Seq<char>,
    content: Seq<u8>,
)
    requires
        scanned(before1, after1, r1, filepath1, ext, content),
        scanned(before2, after2, r2, filepath2, ext, content),
        before2.tags == before1.tags,
        before2.slots == before1.slots,
        before2.types == before1.types,
    ensures
        r1 is Ok <==> r2 is Ok,
        r1 is Ok ==> after1.files.last().todos == after2.files.last().todos,
        r1 is Err ==> r1->Err_0@ == r2->Err_0@,
{
}

/// An extension without comment types of its own is read exactly as the
/// default extension is: the expressions for both are the same.
pub proof fn lemma_unknown_ext_is_read_as_default(
    builder: BuilderView,
    todor: TodoR,
    ext: Seq<char>,
)
    requires
        builder.default_ext_is_known(),
        todor.wf(),
        todor@ == builder.built(),
        !todor@.slots.contains_key(ext),
    ensures
        todor@.comment_kinds(ext) == todor@.comment_kinds(builder.default_ext()),
        todor@.regexs_for(ext) == todor@.regexs_for(builder.default_ext()),
{
    todor.lemma_wf_slots();
    assert(todor@.slots.contains_key(builder.default_ext()));
}

/// The expressions of a slot are built once. After a first request that
/// succeeds, a second request for the same key gets the same expressions,
/// even with other tags, and leaves the map as it is.
pub proof fn lemma_regexs_are_built_once(
    map: MultiMapView,
    key: Seq<char>,
    first_tags: Seq<Seq<char>>,
    second_tags: Seq<Seq<char>>,
)
    requires
        map.wf(),
        map.slot_regexs(map.slot_of(key), first_tags) is Ok,
    ensures
        ({
            let slot = map.slot_of(key);
            let later = map.after_asking(slot, first_tags);
            &&& later.slot_of(key) == slot
            &&& later.slot_regexs(slot, second_tags) == map.slot_regexs(slot, first_tags)
            &&& later.after_asking(slot, second_tags) == later
        }),
{
    let slot = map.slot_of(key);
    let later = map.after_asking(slot, first_tags);
    assert(0 <= slot < map.cache.len()) by {
        assert(map.slots.contains_key(key) ==> slot == map.slots[key]);
    }
    assert(later.cache.update(slot, later.cache[slot]) =~= later.cache);
}

/// Keys that share a slot share its expressions: once one of them was asked
/// for, the other gets the same expressions, whatever its tags.
pub proof fn lemma_shared_slot_shares_regexs(
    map: MultiMapView,
    key: Seq<char>,
    other: Seq<char>,
    first_tags: Seq<Seq<char>>,
    second_tags: Seq<Seq<char>>,
)
    requires
        map.wf(),
        map.slot_of(key) == map.slot_of(other),
        map.slot_regexs(map.slot_of(key), first_tags) is Ok,
    ensures
        map.after_asking(map.slot_of(key), first_tags).slot_regexs(
            map.after_asking(map.slot_of(key), first_tags).slot_of(other),
            second_tags,
        ) == map.slot_regexs(map.slot_of(key), first_tags),
{
    lemma_regexs_are_built_once(map, key, first_tags, second_tags);
}

/// The last entry that names an extension decides its comment types, whole:
/// nothing of what earlier entries gave for the extension is left.
pub proof fn lemma_last_entry_decides(comments: Seq<CommentsConfigView>, j: int, ext: Seq<char>)
    requires
        0 <= j < comments.len(),
        comments.len() < usize::MAX,
        comments[j].keys.contains(ext),
        forall|i: int| j < i < comments.len() ==> !(#[trigger] comments[i]).keys.contains(ext),
    ensures
        table_of(comments).slots.contains_key(ext),
        table_of(comments).slots[ext] == j + 1,
        table_of(comments).types[j + 1] == comments[j].types,
    decreases comments.len(),
{
    let before = comments.drop_last();
    let table = table_of(before);
    lemma_table_of(before);
    lemma_with_keys(table.slots, comments.last().keys, table.types.len() as usize, ext);
    if j < comments.len() - 1 {
        assert(!comments[comments.len() - 1].keys.contains(ext));
        assert forall|i: int| j < i < before.len() implies !(#[trigger] before[i]).keys.contains(
            ext,
        ) by {
            assert(before[i] == comments[i]);
        }
        lemma_last_entry_decides(before, j, ext);
    }
}

/// A fragment's entry for an extension replaces the built-in entry, and any
/// other earlier entry, for that extension: what is built reads files of the
/// extension with the comment types of the last entry that names it.
pub proof fn lemma_later_entry_replaces_earlier(builder: BuilderView, j: int, ext: Seq<char>)
    requires
        builder.default_ext_is_known(),
        0 <= j < crate::builder::merged_comments(builder.fragments).len() < usize::MAX,
        crate::builder::merged_comments(builder.fragments)[j].keys.contains(ext),
        forall|i: int|
            j < i < crate::builder::merged_comments(builder.fragments).len() ==> !(
            #[trigger] crate::builder::merged_comments(builder.fragments)[i]).keys.contains(ext),
    ensures
        builder.built().comment_kinds(ext) == crate::builder::merged_comments(
            builder.fragments,
        )[j].types,
{
    lemma_last_entry_decides(crate::builder::merged_comments(builder.fragments), j, ext);
    lemma_table_of(crate::builder::merged_comments(builder.fragments));
}

/// A tag that is added comes after the tags of the fragments and after the
/// tags added before it; it takes the place of none of them. (Override tags,
/// where there are any, set all of these aside.)
pub proof fn lemma_added_tag_is_appended(builder: BuilderView, tag: Seq<char>)
    requires
        builder.override_tags is None,
    ensures
        (BuilderView { added_tags: builder.added_tags.push(tag), ..builder }).tags()
            == builder.tags().push(uppercase(tag)),
{
    let more = BuilderView { added_tags: builder.added_tags.push(tag), ..builder };
    let merged = crate::builder::merged_tags(builder.fragments);
    assert(merged + builder.added_tags.push(tag) =~= (merged + builder.added_tags).push(tag));
    assert(more.tags() =~= builder.tags().push(uppercase(tag)));
}

} // verus!
