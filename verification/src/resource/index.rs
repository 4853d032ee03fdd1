use vstd::prelude::*;
use vstd::string::StrSliceExecFns;
use crate::asset::bookmark::{AssetBookmark, BookmarkView};
use crate::asset::{type_for_tag, AssetType};
use crate::errors::{AssetErrorView, AssetErrors};
use crate::reader::{can_read, le32_at, parse_fail, read_u32_le, skip_bytes};
use crate::resource::item::{spec_read_item, ItemView, ResourceIndexItem};
use crate::resource::node::{spec_read_node, ResourceIndexNode};
use crate::strutil::{find2, find2_from, find_char_back, rfind_char, parse_u32_str, spec_parse_u32,
    str_eq_chars};

verus! {

/// The byte distance between a node's start and end offsets for every valid
/// pairing: the fixed size of one asset's header record.
pub const ASSET_NODE_SPAN: u32 = 23;

/// The catalog decoded from one resource index file: every asset's bookmark,
/// held sorted by numeric resource id so lookups can bisect.
pub struct ResourceIndex {
    pub bookmarks: Vec<AssetBookmark>,
}

/// The views of a sequence of bookmarks.
pub open spec fn bviews(s: Seq<AssetBookmark>) -> Seq<BookmarkView> {
    s.map_values(|b: AssetBookmark| b@)
}

/// The views of a sequence of index items.
pub open spec fn iviews(s: Seq<ResourceIndexItem>) -> Seq<ItemView> {
    s.map_values(|it: ResourceIndexItem| it@)
}

/// The sort rank of a numeric resource id: absent ids order before id 0.
pub open spec fn id_rank(r: Option<u32>) -> int {
    match r {
        None => -1,
        Some(v) => v as int,
    }
}

/// True when `s` is ordered by ascending resource id rank.
pub open spec fn sorted_by_id(s: Seq<BookmarkView>) -> bool {
    forall|i: int, j: int|
        0 <= i <= j < s.len() ==> id_rank(#[trigger] s[i].resource_id) <= id_rank(
            #[trigger] s[j].resource_id,
        )
}

/// Stable insertion of a node into a run sorted by `node_start`: the new
/// element lands after every element whose key is not larger.
pub open spec fn spec_insert_node(s: Seq<ResourceIndexNode>, x: ResourceIndexNode) -> Seq<
    ResourceIndexNode,
>
    decreases s.len(),
{
    if s.len() > 0 && s.last().node_start > x.node_start {
        spec_insert_node(s.drop_last(), x).push(s.last())
    } else {
        s.push(x)
    }
}

/// Stable insertion sort of the header nodes by `node_start`.
pub open spec fn spec_sort_nodes(s: Seq<ResourceIndexNode>) -> Seq<ResourceIndexNode>
    decreases s.len(),
{
    if s.len() == 0 {
        Seq::empty()
    } else {
        spec_insert_node(spec_sort_nodes(s.drop_last()), s.last())
    }
}

/// Stable insertion of an item into a run sorted by `start`.
pub open spec fn spec_insert_item(s: Seq<ItemView>, x: ItemView) -> Seq<ItemView>
    decreases s.len(),
{
    if s.len() > 0 && s.last().start > x.start {
        spec_insert_item(s.drop_last(), x).push(s.last())
    } else {
        s.push(x)
    }
}

/// Stable insertion sort of the body items by `start`.
pub open spec fn spec_sort_items(s: Seq<ItemView>) -> Seq<ItemView>
    decreases s.len(),
{
    if s.len() == 0 {
        Seq::empty()
    } else {
        spec_insert_item(spec_sort_items(s.drop_last()), s.last())
    }
}

/// Stable insertion of a bookmark into a run sorted by resource id rank.
pub open spec fn spec_insert_bookmark(s: Seq<BookmarkView>, x: BookmarkView) -> Seq<BookmarkView>
    decreases s.len(),
{
    if s.len() > 0 && id_rank(s.last().resource_id) > id_rank(x.resource_id) {
        spec_insert_bookmark(s.drop_last(), x).push(s.last())
    } else {
        s.push(x)
    }
}

/// Stable insertion sort of the bookmarks by resource id rank.
pub open spec fn spec_sort_bookmarks(s: Seq<BookmarkView>) -> Seq<BookmarkView>
    decreases s.len(),
{
    if s.len() == 0 {
        Seq::empty()
    } else {
        spec_insert_bookmark(spec_sort_bookmarks(s.drop_last()), s.last())
    }
}

/// Inserting at the boundary `j` between keys not above and keys above the
/// new node realises `spec_insert_node`.
proof fn lemma_insert_node_at(s: Seq<ResourceIndexNode>, x: ResourceIndexNode, j: int)
    requires
        0 <= j <= s.len(),
        forall|k: int| j <= k < s.len() ==> (#[trigger] s[k]).node_start > x.node_start,
        j > 0 ==> s[j - 1].node_start <= x.node_start,
    ensures
        spec_insert_node(s, x) == s.take(j) + seq![x] + s.skip(j),
    decreases s.len(),
{
    if j < s.len() {
        lemma_insert_node_at(s.drop_last(), x, j);
        assert(spec_insert_node(s.drop_last(), x).push(s.last()) =~= s.take(j) + seq![x] + s.skip(
            j,
        ));
    } else {
        assert(spec_insert_node(s, x) =~= s.take(j) + seq![x] + s.skip(j));
    }
}

/// Inserting at the boundary `j` realises `spec_insert_item`.
proof fn lemma_insert_item_at(s: Seq<ItemView>, x: ItemView, j: int)
    requires
        0 <= j <= s.len(),
        forall|k: int| j <= k < s.len() ==> (#[trigger] s[k]).start > x.start,
        j > 0 ==> s[j - 1].start <= x.start,
    ensures
        spec_insert_item(s, x) == s.take(j) + seq![x] + s.skip(j),
    decreases s.len(),
{
    if j < s.len() {
        lemma_insert_item_at(s.drop_last(), x, j);
        assert(spec_insert_item(s.drop_last(), x).push(s.last()) =~= s.take(j) + seq![x] + s.skip(
            j,
        ));
    } else {
        assert(spec_insert_item(s, x) =~= s.take(j) + seq![x] + s.skip(j));
    }
}

/// Inserting at the boundary `j` realises `spec_insert_bookmark`.
proof fn lemma_insert_bookmark_at(s: Seq<BookmarkView>, x: BookmarkView, j: int)
    requires
        0 <= j <= s.len(),
        forall|k: int| j <= k < s.len() ==> id_rank((#[trigger] s[k]).resource_id) > id_rank(
            x.resource_id,
        ),
        j > 0 ==> id_rank(s[j - 1].resource_id) <= id_rank(x.resource_id),
    ensures
        spec_insert_bookmark(s, x) == s.take(j) + seq![x] + s.skip(j),
    decreases s.len(),
{
    if j < s.len() {
        lemma_insert_bookmark_at(s.drop_last(), x, j);
        assert(spec_insert_bookmark(s.drop_last(), x).push(s.last()) =~= s.take(j) + seq![x]
            + s.skip(j));
    } else {
        assert(spec_insert_bookmark(s, x) =~= s.take(j) + seq![x] + s.skip(j));
    }
}

/// The numeric resource id encoded in a uid string: the decimal value of the
/// segment after the last underscore, absent when there is no underscore or
/// the segment is not an in-range number.
pub open spec fn spec_resource_id(uid: Seq<char>) -> Option<u32> {
    let p = find_char_back(uid, uid.len() as int, '_');
    if p == -1 {
        None
    } else {
        spec_parse_u32(uid.subrange(p + 1, uid.len() as int))
    }
}

/// Extracts the numeric resource id from a uid string.
pub fn parse_resource_id(uid: &str) -> (r: Option<u32>)
    ensures
        r == spec_resource_id(uid@),
{
    match rfind_char(uid, '_') {
        None => None,
        Some(p) => {
            let len = uid.unicode_len();
            let tail = uid.substring_char(p + 1, len);
            parse_u32_str(tail)
        },
    }
}

/// The bookmark that one sorted node and one sorted item resolve to: the
/// numeric id comes from the uid, the type and display name from the item's
/// strings, and the offsets from the node, whose span must be the fixed
/// header size.
pub open spec fn spec_bookmark_of(node: ResourceIndexNode, item: ItemView) -> Result<
    BookmarkView,
    AssetErrorView,
> {
    let rid = spec_resource_id(item.uid);
    let named: Result<(Option<Seq<char>>, AssetType), AssetErrorView> = if item.name == "mesh"@ {
        Ok((item.char_name, AssetType::Character))
    } else if item.uid == "pcauth"@ {
        Ok((Some(item.uid), AssetType::Auth))
    } else {
        let sep = find2_from(item.name, 0, ':', ':');
        let tag = if sep >= 0 {
            item.name.take(sep)
        } else {
            item.name
        };
        match type_for_tag(tag) {
            None => Err(AssetErrorView::UnknownAssetType(tag)),
            Some(t) => Ok(
                (
                    if sep >= 0 {
                        Some(item.name.skip(sep + 2))
                    } else {
                        None
                    },
                    t,
                ),
            ),
        }
    };
    match named {
        Err(e) => Err(e),
        Ok((name, ty)) => {
            if node.node_end < node.node_start || node.node_end - node.node_start
                != ASSET_NODE_SPAN {
                Err(AssetErrorView::Parser("asset node span"@))
            } else {
                Ok(
                    BookmarkView {
                        resource_id: rid,
                        asset_type: ty,
                        name: name,
                        node_start: node.node_start as int,
                        node_end: node.node_end as int,
                        node_next: node.node_next as int,
                        size: item.size,
                    },
                )
            }
        },
    }
}

/// Resolves one node/item pair into a bookmark.
pub fn bookmark_of(node: &ResourceIndexNode, item: &ResourceIndexItem) -> (r: Result<
    AssetBookmark,
    AssetErrors,
>)
    ensures
        spec_bookmark_of(*node, item@) matches Ok(bv) ==> (r matches Ok(b) && b@ == bv),
        spec_bookmark_of(*node, item@) matches Err(ev) ==> (r matches Err(e) && e@ == ev),
{
    let resource_id = parse_resource_id(item.uid.as_str());
    let (name, asset_type): (Option<String>, AssetType) = if str_eq_chars(
        item.name.as_str(),
        "mesh",
    ) {
        (
            match &item.char_name {
                Some(s) => Some(s.clone()),
                None => None,
            },
            AssetType::Character,
        )
    } else if str_eq_chars(item.uid.as_str(), "pcauth") {
        (Some(item.uid.clone()), AssetType::Auth)
    } else {
        let nm = item.name.as_str();
        let len = nm.unicode_len();
        match find2(nm, ':', ':') {
            Some(sep) => {
                let tag = nm.substring_char(0, sep);
                let t = AssetType::try_from_tag(tag)?;
                (Some(nm.substring_char(sep + 2, len).to_owned()), t)
            },
            None => {
                let t = AssetType::try_from_tag(nm)?;
                (None, t)
            },
        }
    };
    if node.node_end < node.node_start || node.node_end - node.node_start != ASSET_NODE_SPAN {
        return Err(parse_fail("asset node span"));
    }
    Ok(
        AssetBookmark {
            resource_id,
            asset_type,
            name,
            node_start: node.node_start as usize,
            node_end: node.node_end as usize,
            node_next: node.node_next as usize,
            size: item.size,
        },
    )
}

/// The first `n` header nodes encoded from `pos` on, with the position that
/// follows them; a short read fails at the first node it cuts.
pub open spec fn spec_read_nodes(d: Seq<u8>, pos: int, n: nat) -> Result<
    (Seq<ResourceIndexNode>, int),
    AssetErrorView,
>
    decreases n,
{
    if n == 0 {
        Ok((Seq::empty(), pos))
    } else {
        match spec_read_nodes(d, pos, (n - 1) as nat) {
            Err(e) => Err(e),
            Ok((s, p)) => match spec_read_node(d, p) {
                None => Err(AssetErrorView::Parser("index node"@)),
                Some((nd, p2)) => Ok((s.push(nd), p2)),
            },
        }
    }
}

/// The first `n` body items encoded from `pos` on.
pub open spec fn spec_read_items(d: Seq<u8>, pos: int, n: nat, char_names: bool) -> Result<
    (Seq<ItemView>, int),
    AssetErrorView,
>
    decreases n,
{
    if n == 0 {
        Ok((Seq::empty(), pos))
    } else {
        match spec_read_items(d, pos, (n - 1) as nat, char_names) {
            Err(e) => Err(e),
            Ok((s, p)) => match spec_read_item(d, p, char_names) {
                Err(e) => Err(e),
                Ok((iv, p2)) => Ok((s.push(iv), p2)),
            },
        }
    }
}

/// Once a node-run prefix fails, every longer run fails the same way.
proof fn lemma_read_nodes_err(d: Seq<u8>, pos: int, m: nat, n: nat)
    requires
        m <= n,
        spec_read_nodes(d, pos, m) is Err,
    ensures
        spec_read_nodes(d, pos, n) == spec_read_nodes(d, pos, m),
    decreases n,
{
    if n > m {
        lemma_read_nodes_err(d, pos, m, (n - 1) as nat);
    }
}

/// Once an item-run prefix fails, every longer run fails the same way.
proof fn lemma_read_items_err(d: Seq<u8>, pos: int, m: nat, n: nat, char_names: bool)
    requires
        m <= n,
        spec_read_items(d, pos, m, char_names) is Err,
    ensures
        spec_read_items(d, pos, n, char_names) == spec_read_items(d, pos, m, char_names),
    decreases n,
{
    if n > m {
        lemma_read_items_err(d, pos, m, (n - 1) as nat, char_names);
    }
}

/// The bookmarks resolved from the sorted tables: the item at sorted
/// position `i` pairs with the node at sorted position `i + 1`, the header
/// table carrying one leading sentinel node.
pub open spec fn spec_pair_all(nodes: Seq<ResourceIndexNode>, items: Seq<ItemView>) -> Result<
    Seq<BookmarkView>,
    AssetErrorView,
>
    recommends
        items.len() < nodes.len(),
    decreases items.len(),
{
    if items.len() == 0 {
        Ok(Seq::empty())
    } else {
        match spec_pair_all(nodes, items.drop_last()) {
            Err(e) => Err(e),
            Ok(s) => match spec_bookmark_of(nodes[items.len() as int], items.last()) {
                Err(e) => Err(e),
                Ok(b) => Ok(s.push(b)),
            },
        }
    }
}

/// Once a pairing prefix fails, pairing the whole run fails the same way.
proof fn lemma_pair_err(nodes: Seq<ResourceIndexNode>, items: Seq<ItemView>, m: int)
    requires
        0 <= m <= items.len(),
        spec_pair_all(nodes, items.take(m)) is Err,
    ensures
        spec_pair_all(nodes, items) == spec_pair_all(nodes, items.take(m)),
    decreases items.len() - m,
{
    if m == items.len() {
        assert(items.take(m) =~= items);
    } else {
        assert(items.take(m + 1).drop_last() =~= items.take(m));
        assert(spec_pair_all(nodes, items.take(m + 1)) == spec_pair_all(nodes, items.take(m)));
        lemma_pair_err(nodes, items, m + 1);
    }
}

/// The full catalog that an index byte stream decodes to: header, node
/// table, item table, both tables sorted by their start offsets, items
/// paired positionally with nodes, and the bookmarks sorted by resource id.
pub open spec fn spec_catalog(d: Seq<u8>, char_names: bool) -> Result<
    Seq<BookmarkView>,
    AssetErrorView,
> {
    if !can_read(d, 0, 12) {
        Err(AssetErrorView::Parser("resource index total nodes"@))
    } else {
        let total_nodes = le32_at(d, 8);
        match spec_read_nodes(d, 12, total_nodes as nat) {
            Err(e) => Err(e),
            Ok((nodes, p)) => {
                if !can_read(d, p, 4) {
                    Err(AssetErrorView::Parser("resource index total items"@))
                } else {
                    let total_items = le32_at(d, p);
                    match spec_read_items(d, p + 4, total_items as nat, char_names) {
                        Err(e) => Err(e),
                        Ok((items, _)) => {
                            if items.len() >= nodes.len() {
                                Err(AssetErrorView::Parser("resource index node count"@))
                            } else {
                                match spec_pair_all(
                                    spec_sort_nodes(nodes),
                                    spec_sort_items(items),
                                ) {
                                    Err(e) => Err(e),
                                    Ok(bs) => Ok(spec_sort_bookmarks(bs)),
                                }
                            }
                        },
                    }
                }
            },
        }
    }
}

/// Inserts a node into a vector kept in `spec_insert_node` order.
fn insert_node_sorted(v: &mut Vec<ResourceIndexNode>, x: ResourceIndexNode)
    ensures
        final(v)@ == spec_insert_node(old(v)@, x),
        final(v)@.len() == old(v)@.len() + 1,
{
    let mut j: usize = v.len();
    while j > 0 && v[j - 1].node_start > x.node_start
        invariant
            0 <= j <= v@.len(),
            v@ == old(v)@,
            forall|k: int| j <= k < v@.len() ==> (#[trigger] v@[k]).node_start > x.node_start,
        decreases j,
    {
        j = j - 1;
    }
    let ghost j0 = j as int;
    v.insert(j, x);
    proof {
        lemma_insert_node_at(old(v)@, x, j0);
        assert(v@ =~= old(v)@.take(j0) + seq![x] + old(v)@.skip(j0));
    }
}

/// Inserts an item into a vector kept in `spec_insert_item` order.
fn insert_item_sorted(v: &mut Vec<ResourceIndexItem>, x: ResourceIndexItem)
    ensures
        iviews(final(v)@) == spec_insert_item(iviews(old(v)@), x@),
        final(v)@.len() == old(v)@.len() + 1,
{
    let mut j: usize = v.len();
    let key = x.start;
    while j > 0 && v[j - 1].start > key
        invariant
            0 <= j <= v@.len(),
            v@ == old(v)@,
            key == x.start,
            forall|k: int| j <= k < v@.len() ==> (#[trigger] v@[k]).start > x.start,
        decreases j,
    {
        j = j - 1;
    }
    let ghost j0 = j as int;
    v.insert(j, x);
    proof {
        lemma_insert_item_at(iviews(old(v)@), x@, j0);
        assert(iviews(v@) =~= iviews(old(v)@).take(j0) + seq![x@] + iviews(old(v)@).skip(j0));
    }
}

/// The rank a bookmark sorts by.
fn id_rank_exec(r: &Option<u32>) -> (k: i64)
    ensures
        k == id_rank(*r),
{
    match r {
        None => -1,
        Some(v) => *v as i64,
    }
}

/// Inserts a bookmark into a vector kept in `spec_insert_bookmark` order;
/// inserting into a sorted vector keeps it sorted.
fn insert_bookmark_sorted(v: &mut Vec<AssetBookmark>, x: AssetBookmark)
    ensures
        bviews(final(v)@) == spec_insert_bookmark(bviews(old(v)@), x@),
        final(v)@.len() == old(v)@.len() + 1,
        sorted_by_id(bviews(old(v)@)) ==> sorted_by_id(bviews(final(v)@)),
{
    let mut j: usize = v.len();
    let key = id_rank_exec(&x.resource_id);
    while j > 0 && id_rank_exec(&v[j - 1].resource_id) > key
        invariant
            0 <= j <= v@.len(),
            v@ == old(v)@,
            key == id_rank(x@.resource_id),
            forall|k: int|
                j <= k < v@.len() ==> id_rank((#[trigger] v@[k])@.resource_id) > id_rank(
                    x@.resource_id,
                ),
        decreases j,
    {
        j = j - 1;
    }
    let ghost j0 = j as int;
    v.insert(j, x);
    proof {
        lemma_insert_bookmark_at(bviews(old(v)@), x@, j0);
        assert(bviews(v@) =~= bviews(old(v)@).take(j0) + seq![x@] + bviews(old(v)@).skip(j0));
    }
}

/// The bookmarks of `s` whose asset type is `t`, in order.
pub open spec fn filtered_by_type(s: Seq<BookmarkView>, t: AssetType) -> Seq<BookmarkView> {
    s.filter(|b: BookmarkView| b.asset_type == t)
}

/// Appending one bookmark extends the filtered run by that bookmark exactly
/// when its type matches.
pub proof fn lemma_filtered_push(s: Seq<BookmarkView>, x: BookmarkView, t: AssetType)
    ensures
        x.asset_type == t ==> filtered_by_type(s.push(x), t) == filtered_by_type(s, t).push(x),
        x.asset_type != t ==> filtered_by_type(s.push(x), t) == filtered_by_type(s, t),
{
    reveal(Seq::filter);
    assert(s.push(x).drop_last() =~= s);
    assert(s.push(x).last() == x);
}

/// Filtering a catalog by type loses nothing and duplicates nothing: each
/// bookmark stands in the filtered run of its own type, and the per-type
/// counts of all sixteen types add up to the whole.
pub proof fn lemma_filter_partition(s: Seq<BookmarkView>)
    ensures
        filtered_by_type(s, AssetType::Material).len() + filtered_by_type(
            s,
            AssetType::Animation,
        ).len() + filtered_by_type(s, AssetType::Mesh).len() + filtered_by_type(
            s,
            AssetType::Image,
        ).len() + filtered_by_type(s, AssetType::Text).len() + filtered_by_type(
            s,
            AssetType::Binary,
        ).len() + filtered_by_type(s, AssetType::Texture).len() + filtered_by_type(
            s,
            AssetType::Font,
        ).len() + filtered_by_type(s, AssetType::Effect).len() + filtered_by_type(
            s,
            AssetType::Music,
        ).len() + filtered_by_type(s, AssetType::Sound).len() + filtered_by_type(
            s,
            AssetType::Character,
        ).len() + filtered_by_type(s, AssetType::Auth).len() + filtered_by_type(
            s,
            AssetType::MapObject,
        ).len() + filtered_by_type(s, AssetType::TerrainRegion).len() + filtered_by_type(
            s,
            AssetType::WorldMap,
        ).len() == s.len(),
        forall|i: int|
            0 <= i < s.len() ==> filtered_by_type(s, s[i].asset_type).contains(#[trigger] s[i]),
    decreases s.len(),
{
    broadcast use vstd::seq_lib::group_filter_ensures;

    reveal(Seq::filter);
    if s.len() == 0 {
    } else {
        let prefix = s.drop_last();
        let x = s.last();
        lemma_filter_partition(prefix);
        assert(s =~= prefix.push(x));
        lemma_filtered_push(prefix, x, AssetType::Material);
        lemma_filtered_push(prefix, x, AssetType::Animation);
        lemma_filtered_push(prefix, x, AssetType::Mesh);
        lemma_filtered_push(prefix, x, AssetType::Image);
        lemma_filtered_push(prefix, x, AssetType::Text);
        lemma_filtered_push(prefix, x, AssetType::Binary);
        lemma_filtered_push(prefix, x, AssetType::Texture);
        lemma_filtered_push(prefix, x, AssetType::Font);
        lemma_filtered_push(prefix, x, AssetType::Effect);
        lemma_filtered_push(prefix, x, AssetType::Music);
        lemma_filtered_push(prefix, x, AssetType::Sound);
        lemma_filtered_push(prefix, x, AssetType::Character);
        lemma_filtered_push(prefix, x, AssetType::Auth);
        lemma_filtered_push(prefix, x, AssetType::MapObject);
        lemma_filtered_push(prefix, x, AssetType::TerrainRegion);
        lemma_filtered_push(prefix, x, AssetType::WorldMap);
    }
}

/// True when no numeric resource id occurs twice in the run.
pub open spec fn distinct_resource_ids(s: Seq<BookmarkView>) -> bool {
    forall|a: int, b: int|
        0 <= a < s.len() && 0 <= b < s.len() && a != b && (#[trigger] s[a].resource_id) is Some
            ==> s[a].resource_id != #[trigger] s[b].resource_id
}

/// In a catalog whose numeric ids are pairwise distinct, a bookmark's id
/// identifies it: the positions holding that id are exactly its own, so a
/// lookup for the id can yield no other bookmark.
pub proof fn lemma_id_lookup_unique(s: Seq<BookmarkView>, i: int, id: u32)
    requires
        distinct_resource_ids(s),
        0 <= i < s.len(),
        s[i].resource_id == Some(id),
    ensures
        forall|j: int| 0 <= j < s.len() ==> ((#[trigger] s[j].resource_id) == Some(id) <==> j
            == i),
{
}

/// True when the bookmark's node span equals the fixed per-asset header
/// size.
pub open spec fn span_ok(b: BookmarkView) -> bool {
    b.node_end - b.node_start == ASSET_NODE_SPAN
}

/// Every bookmark a pairing produces has the fixed node span.
proof fn lemma_pair_span(nodes: Seq<ResourceIndexNode>, items: Seq<ItemView>)
    ensures
        spec_pair_all(nodes, items) matches Ok(bs) ==> forall|i: int|
            0 <= i < bs.len() ==> span_ok(#[trigger] bs[i]),
    decreases items.len(),
{
    if items.len() > 0 {
        lemma_pair_span(nodes, items.drop_last());
    }
}

/// Insertion keeps a pointwise property of the run.
proof fn lemma_insert_bookmark_span(s: Seq<BookmarkView>, x: BookmarkView)
    requires
        forall|i: int| 0 <= i < s.len() ==> span_ok(#[trigger] s[i]),
        span_ok(x),
    ensures
        forall|i: int|
            0 <= i < spec_insert_bookmark(s, x).len() ==> span_ok(
                #[trigger] spec_insert_bookmark(s, x)[i],
            ),
    decreases s.len(),
{
    if s.len() > 0 && id_rank(s.last().resource_id) > id_rank(x.resource_id) {
        lemma_insert_bookmark_span(s.drop_last(), x);
        let r = spec_insert_bookmark(s, x);
        let rr = spec_insert_bookmark(s.drop_last(), x);
        assert forall|i: int| 0 <= i < r.len() implies span_ok(r[i]) by {
            assert(r == rr.push(s.last()));
            if i < rr.len() {
                assert(span_ok(rr[i]));
            } else {
                assert(r[i] == s.last());
                assert(span_ok(s[s.len() - 1]));
            }
        }
    }
}

/// Sorting keeps a pointwise property of the run.
proof fn lemma_sort_bookmarks_span(s: Seq<BookmarkView>)
    requires
        forall|i: int| 0 <= i < s.len() ==> span_ok(#[trigger] s[i]),
    ensures
        forall|i: int|
            0 <= i < spec_sort_bookmarks(s).len() ==> span_ok(#[trigger] spec_sort_bookmarks(s)[i]),
    decreases s.len(),
{
    if s.len() > 0 {
        lemma_sort_bookmarks_span(s.drop_last());
        lemma_insert_bookmark_span(spec_sort_bookmarks(s.drop_last()), s.last());
    }
}

/// Every bookmark of a successfully built catalog spans exactly the fixed
/// per-asset header size between its node's start and end offsets: the
/// pairing validates the span of each node it consumes, and a violation is
/// a decode failure, never a silently wrong bookmark.
pub proof fn lemma_catalog_span(d: Seq<u8>, char_names: bool)
    ensures
        spec_catalog(d, char_names) matches Ok(bs) ==> forall|i: int|
            0 <= i < bs.len() ==> span_ok(#[trigger] bs[i]),
{
    if spec_catalog(d, char_names) is Ok {
        let total_nodes = le32_at(d, 8);
        match spec_read_nodes(d, 12, total_nodes as nat) {
            Err(_) => {},
            Ok((nodes, p)) => {
                let total_items = le32_at(d, p);
                match spec_read_items(d, p + 4, total_items as nat, char_names) {
                    Err(_) => {},
                    Ok((items, _)) => {
                        let snodes = spec_sort_nodes(nodes);
                        let sitems = spec_sort_items(items);
                        match spec_pair_all(snodes, sitems) {
                            Err(_) => {},
                            Ok(bs) => {
                                lemma_pair_span(snodes, sitems);
                                lemma_sort_bookmarks_span(bs);
                            },
                        }
                    },
                }
            },
        }
    }
}

impl ResourceIndex {
    /// True when the catalog is in its canonical order: bookmarks sorted by
    /// ascending resource id rank. `read` establishes it and the lookup
    /// functions rely on it.
    pub open spec fn wf(&self) -> bool {
        sorted_by_id(bviews(self.bookmarks@))
    }

    /// Decodes a whole resource index file into its catalog. `char_names`
    /// selects the character roster layout of the item records; the generic
    /// asset index passes false.
    #[verifier::loop_isolation(false)]
    #[verifier::rlimit(60)]
    pub fn read(d: &[u8], char_names: bool) -> (r: Result<ResourceIndex, AssetErrors>)
        ensures
            spec_catalog(d@, char_names) matches Ok(bs) ==> (r matches Ok(idx) && bviews(
                idx.bookmarks@,
            ) == bs && idx.wf()),
            spec_catalog(d@, char_names) matches Err(ev) ==> (r matches Err(e) && e@ == ev),
    {
        let p = skip_bytes(d, 0, 8, "resource index total nodes")?;
        let (total_nodes, pn) = read_u32_le(d, p, "resource index total nodes")?;

        let mut nodes: Vec<ResourceIndexNode> = Vec::new();
        let mut p: usize = pn;
        let mut i: u32 = 0;
        while i < total_nodes
            invariant
                0 <= i <= total_nodes,
                spec_read_nodes(d@, pn as int, i as nat) == Ok::<
                    (Seq<ResourceIndexNode>, int),
                    AssetErrorView,
                >((nodes@, p as int)),
            decreases total_nodes - i,
        {
            match ResourceIndexNode::read(d, p) {
                Ok((nd, p2)) => {
                    nodes.push(nd);
                    p = p2;
                },
                Err(e) => {
                    proof {
                        lemma_read_nodes_err(d@, pn as int, (i + 1) as nat, total_nodes as nat);
                    }
                    return Err(e);
                },
            }
            i = i + 1;
        }

        let (total_items, pi) = read_u32_le(d, p, "resource index total items")?;

        let mut items: Vec<ResourceIndexItem> = Vec::new();
        proof {
            assert(iviews(items@) =~= Seq::<ItemView>::empty());
        }
        let mut p2: usize = pi;
        let mut i2: u32 = 0;
        while i2 < total_items
            invariant
                0 <= i2 <= total_items,
                spec_read_items(d@, pi as int, i2 as nat, char_names) == Ok::<
                    (Seq<ItemView>, int),
                    AssetErrorView,
                >((iviews(items@), p2 as int)),
            decreases total_items - i2,
        {
            match ResourceIndexItem::read(d, p2, char_names) {
                Ok((it, q)) => {
                    proof {
                        assert(iviews(items@.push(it)) =~= iviews(items@).push(it@));
                    }
                    items.push(it);
                    p2 = q;
                },
                Err(e) => {
                    proof {
                        lemma_read_items_err(
                            d@,
                            pi as int,
                            (i2 + 1) as nat,
                            total_items as nat,
                            char_names,
                        );
                    }
                    return Err(e);
                },
            }
            i2 = i2 + 1;
        }

        if items.len() >= nodes.len() {
            return Err(parse_fail("resource index node count"));
        }

        let mut snodes: Vec<ResourceIndexNode> = Vec::new();
        proof {
            assert(nodes@.take(0) =~= Seq::<ResourceIndexNode>::empty());
        }
        let mut k: usize = 0;
        while k < nodes.len()
            invariant
                0 <= k <= nodes@.len(),
                snodes@.len() == k,
                snodes@ == spec_sort_nodes(nodes@.take(k as int)),
            decreases nodes@.len() - k,
        {
            insert_node_sorted(&mut snodes, nodes[k]);
            proof {
                assert(nodes@.take((k + 1) as int).drop_last() =~= nodes@.take(k as int));
            }
            k = k + 1;
        }
        proof {
            assert(nodes@.take(nodes@.len() as int) =~= nodes@);
        }

        let mut sitems: Vec<ResourceIndexItem> = Vec::new();
        proof {
            assert(iviews(sitems@) =~= Seq::<ItemView>::empty());
            assert(iviews(items@).take(0) =~= Seq::<ItemView>::empty());
        }
        let mut k2: usize = 0;
        while k2 < items.len()
            invariant
                0 <= k2 <= items@.len(),
                sitems@.len() == k2,
                iviews(sitems@) == spec_sort_items(iviews(items@).take(k2 as int)),
            decreases items@.len() - k2,
        {
            insert_item_sorted(&mut sitems, items[k2].clone());
            proof {
                assert(iviews(items@).take((k2 + 1) as int).drop_last() =~= iviews(
                    items@,
                ).take(k2 as int));
            }
            k2 = k2 + 1;
        }
        proof {
            assert(iviews(items@).take(items@.len() as int) =~= iviews(items@));
        }

        let mut raw: Vec<AssetBookmark> = Vec::new();
        proof {
            assert(bviews(raw@) =~= Seq::<BookmarkView>::empty());
            assert(iviews(sitems@).take(0) =~= Seq::<ItemView>::empty());
        }
        let mut m: usize = 0;
        while m < sitems.len()
            invariant
                0 <= m <= sitems@.len(),
                sitems@.len() < snodes@.len(),
                spec_pair_all(snodes@, iviews(sitems@).take(m as int)) == Ok::<
                    Seq<BookmarkView>,
                    AssetErrorView,
                >(bviews(raw@)),
            decreases sitems@.len() - m,
        {
            let nd = snodes[m + 1];
            match bookmark_of(&nd, &sitems[m]) {
                Ok(b) => {
                    proof {
                        assert(iviews(sitems@).take((m + 1) as int).drop_last() =~= iviews(
                            sitems@,
                        ).take(m as int));
                        assert(bviews(raw@.push(b)) =~= bviews(raw@).push(b@));
                    }
                    raw.push(b);
                },
                Err(e) => {
                    proof {
                        assert(iviews(sitems@).take((m + 1) as int).drop_last() =~= iviews(
                            sitems@,
                        ).take(m as int));
                        lemma_pair_err(snodes@, iviews(sitems@), (m + 1) as int);
                        assert(iviews(sitems@).take(sitems@.len() as int) =~= iviews(sitems@));
                    }
                    return Err(e);
                },
            }
            m = m + 1;
        }
        proof {
            assert(iviews(sitems@).take(sitems@.len() as int) =~= iviews(sitems@));
        }

        let mut bookmarks: Vec<AssetBookmark> = Vec::new();
        proof {
            assert(bviews(bookmarks@) =~= Seq::<BookmarkView>::empty());
            assert(bviews(raw@).take(0) =~= Seq::<BookmarkView>::empty());
        }
        let mut q: usize = 0;
        while q < raw.len()
            invariant
                0 <= q <= raw@.len(),
                bviews(bookmarks@) == spec_sort_bookmarks(bviews(raw@).take(q as int)),
                sorted_by_id(bviews(bookmarks@)),
            decreases raw@.len() - q,
        {
            insert_bookmark_sorted(&mut bookmarks, raw[q].clone());
            proof {
                assert(bviews(raw@).take((q + 1) as int).drop_last() =~= bviews(raw@).take(
                    q as int,
                ));
            }
            q = q + 1;
        }
        proof {
            assert(bviews(raw@).take(raw@.len() as int) =~= bviews(raw@));
        }
        Ok(ResourceIndex { bookmarks })
    }

    /// Looks an asset up by its numeric resource id, bisecting the sorted
    /// catalog. Yields a bookmark holding that id exactly when the catalog
    /// holds one.
    pub fn get_by_resource_id(&self, resource_id: u32) -> (r: Option<AssetBookmark>)
        requires
            self.wf(),
        ensures
            r matches Some(b) ==> (exists|i: int|
                0 <= i < self.bookmarks@.len() && bviews(self.bookmarks@)[i] == b@)
                && b@.resource_id == Some(resource_id),
            r is None ==> forall|i: int|
                0 <= i < self.bookmarks@.len() ==> bviews(
                    self.bookmarks@,
                )[i].resource_id != Some(resource_id),
    {
        let mut lo: usize = 0;
        let mut hi: usize = self.bookmarks.len();
        let target: i64 = resource_id as i64;
        while lo < hi
            invariant
                0 <= lo <= hi <= self.bookmarks@.len(),
                self.wf(),
                target == resource_id as int,
                forall|i: int|
                    0 <= i < lo ==> bviews(self.bookmarks@)[i].resource_id != Some(resource_id),
                forall|i: int|
                    hi <= i < self.bookmarks@.len() ==> bviews(self.bookmarks@)[i].resource_id
                        != Some(resource_id),
            decreases hi - lo,
        {
            let mid = lo + (hi - lo) / 2;
            let mr = id_rank_exec(&self.bookmarks[mid].resource_id);
            if mr == target {
                let found = self.bookmarks[mid].clone();
                proof {
                    assert(bviews(self.bookmarks@)[mid as int] == found@);
                }
                return Some(found);
            } else if mr < target {
                proof {
                    assert forall|i: int| 0 <= i < mid + 1 implies bviews(
                        self.bookmarks@,
                    )[i].resource_id != Some(resource_id) by {
                        if lo <= i {
                            assert(id_rank(bviews(self.bookmarks@)[i].resource_id) <= id_rank(
                                bviews(self.bookmarks@)[mid as int].resource_id,
                            ));
                        }
                    }
                }
                lo = mid + 1;
            } else {
                proof {
                    assert forall|i: int| mid <= i < self.bookmarks@.len() implies bviews(
                        self.bookmarks@,
                    )[i].resource_id != Some(resource_id) by {
                        if i < hi {
                            assert(id_rank(bviews(self.bookmarks@)[mid as int].resource_id)
                                <= id_rank(bviews(self.bookmarks@)[i].resource_id));
                        }
                    }
                }
                hi = mid;
            }
        }
        None
    }

    /// Lists the bookmarks of one asset type, in catalog order.
    pub fn filter_by_type(&self, asset_type: AssetType) -> (r: Vec<AssetBookmark>)
        ensures
            bviews(r@) == filtered_by_type(bviews(self.bookmarks@), asset_type),
    {
        let mut out: Vec<AssetBookmark> = Vec::new();
        let mut i: usize = 0;
        while i < self.bookmarks.len()
            invariant
                0 <= i <= self.bookmarks@.len(),
                bviews(out@) == filtered_by_type(
                    bviews(self.bookmarks@).take(i as int),
                    asset_type,
                ),
            decreases self.bookmarks@.len() - i,
        {
            proof {
                assert(bviews(self.bookmarks@).take((i + 1) as int).drop_last() =~= bviews(
                    self.bookmarks@,
                ).take(i as int));
                assert(bviews(self.bookmarks@).take((i + 1) as int).last() == bviews(
                    self.bookmarks@,
                )[i as int]);
                lemma_filtered_push(
                    bviews(self.bookmarks@).take(i as int),
                    bviews(self.bookmarks@)[i as int],
                    asset_type,
                );
            }
            if self.bookmarks[i].asset_type == asset_type {
                let c = self.bookmarks[i].clone();
                proof {
                    assert(bviews(out@.push(c)) =~= bviews(out@).push(c@));
                    assert(bviews(self.bookmarks@).take(i as int).push(bviews(
                        self.bookmarks@,
                    )[i as int]) =~= bviews(self.bookmarks@).take((i + 1) as int));
                }
                out.push(c);
            } else {
                proof {
                    assert(bviews(self.bookmarks@).take(i as int).push(bviews(
                        self.bookmarks@,
                    )[i as int]) =~= bviews(self.bookmarks@).take((i + 1) as int));
                }
            }
            i = i + 1;
        }
        proof {
            assert(bviews(self.bookmarks@).take(self.bookmarks@.len() as int) =~= bviews(
                self.bookmarks@,
            ));
        }
        out
    }
}

} // verus!
