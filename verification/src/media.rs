//! Expansion of Instagram post nodes (GraphQL and private-API shapes) into
//! downloadable assets.

use vstd::prelude::*;
use crate::json::{
    Json, array_of, bool_of, get_spec, path_spec, str_of, trunc_of,
};
use crate::text::{
    append_chars, chars_of, contains_spec, decimal2_chars, decimal2_spec, is_ascii_digit,
};

verus! {

/// One downloadable file of a post.
#[derive(Debug)]
pub struct Asset {
    pub key: String,
    pub shortcode: String,
    pub index: u32,
    pub url: String,
    pub is_video: bool,
    pub ext: String,
    pub taken_at: Option<i64>,
    pub caption: Option<String>,
    pub media_id: Option<String>,
}

/// An asset as a mathematical value.
pub struct AssetView {
    pub key: Seq<char>,
    pub shortcode: Seq<char>,
    pub index: u32,
    pub url: Seq<char>,
    pub is_video: bool,
    pub ext: Seq<char>,
    pub taken_at: Option<i64>,
    pub caption: Option<Seq<char>>,
    pub media_id: Option<Seq<char>>,
}

/// The view of an optional string.
pub open spec fn opt_view(o: Option<String>) -> Option<Seq<char>> {
    match o {
        Some(s) => Some(s@),
        None => None,
    }
}

impl View for Asset {
    type V = AssetView;

    open spec fn view(&self) -> AssetView {
        AssetView {
            key: self.key@,
            shortcode: self.shortcode@,
            index: self.index,
            url: self.url@,
            is_video: self.is_video,
            ext: self.ext@,
            taken_at: self.taken_at,
            caption: opt_view(self.caption),
            media_id: opt_view(self.media_id),
        }
    }
}

/// One page of a profile's media.
#[derive(Debug)]
pub struct Page {
    pub user_id: String,
    pub username: String,
    pub media_count: Option<u64>,
    pub assets: Vec<Asset>,
    /// One entry per post, used for early-stop heuristics.
    pub post_keys: Vec<String>,
    pub has_next: bool,
    pub end_cursor: Option<String>,
}

/// The views of a sequence of assets.
pub open spec fn assets_view(v: Seq<Asset>) -> Seq<AssetView> {
    v.map_values(|a: Asset| a@)
}

/// The views of a sequence of strings.
pub open spec fn strings_view(v: Seq<String>) -> Seq<Seq<char>> {
    v.map_values(|s: String| s@)
}

// ---------------------------------------------------------------------
// Specifications of the node readers
// ---------------------------------------------------------------------

/// A media id as text: a string as it is, a number as written.
pub open spec fn id_spec(v: Option<Json>) -> Option<Seq<char>> {
    match v {
        Some(Json::Str(s)) => Some(s@),
        Some(Json::Number(n)) => Some(n.text@),
        _ => None,
    }
}

/// `str_of`, with a fallback.
pub open spec fn or_else(a: Option<Seq<char>>, b: Option<Seq<char>>) -> Option<Seq<char>> {
    match a {
        Some(x) => Some(x),
        None => b,
    }
}

/// The pixel count of an image candidate: width times height, each read as
/// a number truncated to an integer (0 when absent), multiplied with
/// wrap-around.
pub open spec fn pixels(c: Json) -> i64 {
    let w = match trunc_of(get_spec(c, "width"@)) {
        Some(x) => x,
        None => 0i64,
    };
    let h = match trunc_of(get_spec(c, "height"@)) {
        Some(x) => x,
        None => 0i64,
    };
    w.wrapping_mul(h)
}

/// The largest candidate among `cands` (the last one among equals), as
/// pixel count and url; `Some(None)` when there are no candidates, `None`
/// when a candidate has no string `url`.
pub open spec fn best_candidate(cands: Seq<Json>) -> Option<Option<(i64, Seq<char>)>>
    decreases cands.len(),
{
    if cands.len() == 0 {
        Some(None)
    } else {
        match best_candidate(cands.drop_last()) {
            None => None,
            Some(best) => match str_of(get_spec(cands.last(), "url"@)) {
                None => None,
                Some(u) => {
                    let px = pixels(cands.last());
                    match best {
                        Some((p, _)) => if px >= p {
                            Some(Some((px, u)))
                        } else {
                            Some(best)
                        },
                        None => Some(Some((px, u))),
                    }
                },
            },
        }
    }
}

/// The display url fields of a node, in order of preference.
pub open spec fn display_url_spec(node: Json) -> Option<Seq<char>> {
    or_else(
        str_of(get_spec(node, "display_url"@)),
        or_else(str_of(get_spec(node, "display_uri"@)), str_of(get_spec(node, "display_src"@))),
    )
}

/// The url of the largest image of a node, else its display url.
pub open spec fn image_url_spec(node: Json) -> Option<Seq<char>> {
    match array_of(path_spec(node, seq!["image_versions2"@, "candidates"@])) {
        Some(cands) => match best_candidate(cands) {
            None => None,
            Some(Some((_, u))) => Some(u),
            Some(None) => display_url_spec(node),
        },
        None => display_url_spec(node),
    }
}

/// The url of the last version that has one.
pub open spec fn last_url(vs: Seq<Json>) -> Option<Seq<char>>
    decreases vs.len(),
{
    if vs.len() == 0 {
        None
    } else {
        match str_of(get_spec(vs.last(), "url"@)) {
            Some(u) => Some(u),
            None => last_url(vs.drop_last()),
        }
    }
}

/// The url of the last (highest bandwidth) video version, else `video_url`.
pub open spec fn video_url_spec(node: Json) -> Option<Seq<char>> {
    let from_versions = match array_of(get_spec(node, "video_versions"@)) {
        Some(vs) => last_url(vs),
        None => None,
    };
    or_else(from_versions, str_of(get_spec(node, "video_url"@)))
}

/// The caption text of a node, in either API shape.
pub open spec fn caption_spec(node: Json) -> Option<Seq<char>> {
    match str_of(path_spec(node, seq!["caption"@, "text"@])) {
        Some(t) => Some(t),
        None => match array_of(path_spec(node, seq!["edge_media_to_caption"@, "edges"@])) {
            Some(edges) => if edges.len() > 0 {
                str_of(path_spec(edges[0], seq!["node"@, "text"@]))
            } else {
                None
            },
            None => None,
        },
    }
}

/// The timestamp of a node: `taken_at`, else `taken_at_timestamp`, else
/// `date`.
pub open spec fn taken_at_spec(node: Json) -> Option<i64> {
    match trunc_of(get_spec(node, "taken_at"@)) {
        Some(t) => Some(t),
        None => match trunc_of(get_spec(node, "taken_at_timestamp"@)) {
            Some(t) => Some(t),
            None => trunc_of(get_spec(node, "date"@)),
        },
    }
}

/// A node is a video when `is_video` is true or `media_type` is 2.
pub open spec fn is_video_spec(node: Json) -> bool {
    bool_of(get_spec(node, "is_video"@)) == Some(true) || trunc_of(get_spec(node, "media_type"@))
        == Some(2i64)
}

/// The shortcode of a node: `code`, else `shortcode`.
pub open spec fn shortcode_spec(node: Json) -> Option<Seq<char>> {
    or_else(str_of(get_spec(node, "code"@)), str_of(get_spec(node, "shortcode"@)))
}

/// The asset key of a child: `<shortcode>_<index>` with the index at least
/// two digits when the post has several assets, the shortcode otherwise.
pub open spec fn key_spec(shortcode: Seq<char>, index: u32, multi: bool) -> Seq<char> {
    if multi {
        shortcode + "_"@ + decimal2_spec(index as nat)
    } else {
        shortcode
    }
}

/// The asset a node yields, if it has a url.
pub open spec fn asset_spec(node: Json, shortcode: Seq<char>, index: u32, multi: bool) -> Option<
    AssetView,
> {
    let video = is_video_spec(node);
    let url = if video {
        or_else(video_url_spec(node), image_url_spec(node))
    } else {
        image_url_spec(node)
    };
    match url {
        None => None,
        Some(u) => Some(
            AssetView {
                key: key_spec(shortcode, index, multi),
                shortcode: shortcode,
                index: index,
                url: u,
                is_video: video,
                ext: if video {
                    "mp4"@
                } else {
                    "jpg"@
                },
                taken_at: taken_at_spec(node),
                caption: caption_spec(node),
                media_id: or_else(id_spec(get_spec(node, "id"@)), id_spec(get_spec(node, "pk"@))),
            },
        ),
    }
}

/// The assets of carousel or sidecar children, in order, numbered by their
/// position; a sidecar child is the `node` member of each edge.
pub open spec fn children_spec(children: Seq<Json>, shortcode: Seq<char>, via_node: bool) -> Seq<
    AssetView,
>
    decreases children.len(),
{
    if children.len() == 0 {
        Seq::empty()
    } else {
        let rest = children_spec(children.drop_last(), shortcode, via_node);
        let i = (children.len() - 1) as u32;
        let child = if via_node {
            get_spec(children.last(), "node"@)
        } else {
            Some(children.last())
        };
        match child {
            Some(c) => match asset_spec(c, shortcode, i, true) {
                Some(a) => rest.push(a),
                None => rest,
            },
            None => rest,
        }
    }
}

/// The assets of one post node: its carousel children, else its sidecar
/// children, else the node itself; none without a shortcode.
pub open spec fn post_spec(node: Json) -> Seq<AssetView> {
    match shortcode_spec(node) {
        None => Seq::empty(),
        Some(sc) => match array_of(get_spec(node, "carousel_media"@)) {
            Some(children) if children.len() > 0 => children_spec(children, sc, false),
            _ => match array_of(
                path_spec(node, seq!["edge_sidecar_to_children"@, "edges"@]),
            ) {
                Some(edges) if edges.len() > 0 => children_spec(edges, sc, true),
                _ => match asset_spec(node, sc, 0, false) {
                    Some(a) => seq![a],
                    None => Seq::empty(),
                },
            },
        },
    }
}

} // verus!

verus! {

// ---------------------------------------------------------------------
// Node readers
// ---------------------------------------------------------------------

fn member_str<'a>(node: &'a Json, key: &str) -> (r: Option<&'a String>)
    ensures
        r matches Some(s) ==> str_of(get_spec(*node, key@)) == Some(s@),
        r is None ==> str_of(get_spec(*node, key@)) is None,
{
    match node.get(key) {
        Some(v) => v.as_str(),
        None => None,
    }
}

fn member_trunc(node: &Json, key: &str) -> (r: Option<i64>)
    ensures
        r == trunc_of(get_spec(*node, key@)),
{
    match node.get(key) {
        Some(v) => v.as_truncated(),
        None => None,
    }
}

fn copy_opt(o: Option<&String>) -> (r: Option<String>)
    ensures
        opt_view(r) == (match o {
            Some(s) => Some(s@),
            None => None,
        }),
{
    match o {
        Some(s) => Some(s.clone()),
        None => None,
    }
}

/// A media id as text: a JSON string as it is, a number as written,
/// nothing for other values.
pub fn stringify_id(v: &Json) -> (r: Option<String>)
    ensures
        opt_view(r) == id_spec(Some(*v)),
{
    match v {
        Json::Str(s) => Some(s.clone()),
        Json::Number(n) => Some(n.text.clone()),
        _ => None,
    }
}

fn member_id(node: &Json, key: &str) -> (r: Option<String>)
    ensures
        opt_view(r) == id_spec(get_spec(*node, key@)),
{
    match node.get(key) {
        Some(v) => stringify_id(v),
        None => None,
    }
}

fn pixels_exec(c: &Json) -> (p: i64)
    ensures
        p == pixels(*c),
{
    let w = match member_trunc(c, "width") {
        Some(x) => x,
        None => 0,
    };
    let h = match member_trunc(c, "height") {
        Some(x) => x,
        None => 0,
    };
    w.wrapping_mul(h)
}

fn display_url(node: &Json) -> (r: Option<String>)
    ensures
        opt_view(r) == display_url_spec(*node),
{
    match member_str(node, "display_url") {
        Some(s) => Some(s.clone()),
        None => match member_str(node, "display_uri") {
            Some(s) => Some(s.clone()),
            None => copy_opt(member_str(node, "display_src")),
        },
    }
}

/// The url of the largest image candidate (the last among equals), else
/// the display url; `None` as soon as a candidate lacks a url.
pub fn best_image_url(node: &Json) -> (r: Option<String>)
    ensures
        opt_view(r) == image_url_spec(*node),
{
    let cands = match node.get2("image_versions2", "candidates") {
        Some(c) => c.as_array(),
        None => None,
    };
    match cands {
        Some(cands) => {
            let mut best: Option<(i64, &String)> = None;
            let mut i: usize = 0;
            assert(cands@.take(0) =~= Seq::<Json>::empty());
            while i < cands.len()
                invariant
                    i <= cands.len(),
                    array_of(path_spec(*node, seq!["image_versions2"@, "candidates"@])) == Some(
                        cands@,
                    ),
                    best_candidate(cands@.take(i as int)) == Some(
                        match best {
                            Some((p, u)) => Some((p, u@)),
                            None => None,
                        },
                    ),
                decreases cands.len() - i,
            {
                assert(cands@.take(i + 1).drop_last() =~= cands@.take(i as int));
                assert(cands@.take(i + 1).last() == cands@[i as int]);
                let url = match member_str(&cands[i], "url") {
                    Some(u) => u,
                    None => {
                        proof {
                            lemma_best_candidate_fails(cands@, i + 1);
                        }
                        return None;
                    },
                };
                let px = pixels_exec(&cands[i]);
                let replace = match best {
                    Some((p, _)) => px >= p,
                    None => true,
                };
                if replace {
                    best = Some((px, url));
                }
                i += 1;
            }
            assert(cands@.take(cands.len() as int) =~= cands@);
            match best {
                Some((_, u)) => Some(u.clone()),
                None => display_url(node),
            }
        },
        None => display_url(node),
    }
}

/// Once a prefix of the candidates has one without a url, so do all of them.
proof fn lemma_best_candidate_fails(cands: Seq<Json>, k: int)
    requires
        0 <= k <= cands.len(),
        best_candidate(cands.take(k)) is None,
    ensures
        best_candidate(cands) is None,
    decreases cands.len() - k,
{
    if k < cands.len() {
        assert(cands.take(k + 1).drop_last() =~= cands.take(k));
        lemma_best_candidate_fails(cands, k + 1);
    } else {
        assert(cands.take(k) =~= cands);
    }
}

/// The url of the last video version that has one, else `video_url`.
pub fn best_video_url(node: &Json) -> (r: Option<String>)
    ensures
        opt_view(r) == video_url_spec(*node),
{
    let versions = match node.get("video_versions") {
        Some(v) => v.as_array(),
        None => None,
    };
    match versions {
        Some(vs) => {
            let mut i: usize = vs.len();
            assert(vs@.take(vs.len() as int) =~= vs@);
            while i > 0
                invariant
                    i <= vs.len(),
                    array_of(get_spec(*node, "video_versions"@)) == Some(vs@),
                    last_url(vs@) == last_url(vs@.take(i as int)),
                decreases i,
            {
                assert(vs@.take(i as int).drop_last() =~= vs@.take(i - 1));
                assert(vs@.take(i as int).last() == vs@[i - 1]);
                match member_str(&vs[i - 1], "url") {
                    Some(u) => {
                        return Some(u.clone());
                    },
                    None => {},
                }
                i -= 1;
            }
            assert(vs@.take(0) =~= Seq::<Json>::empty());
            proof {
                assert(vs@.take(vs.len() as int) =~= vs@);
            }
        },
        None => {},
    }
    copy_opt(member_str(node, "video_url"))
}

/// The caption text of a node (`caption.text`, else the first caption
/// edge's `node.text`).
pub fn caption_of(node: &Json) -> (r: Option<String>)
    ensures
        opt_view(r) == caption_spec(*node),
{
    match node.get2("caption", "text") {
        Some(t) => match t.as_str() {
            Some(s) => {
                return Some(s.clone());
            },
            None => {},
        },
        None => {},
    }
    let edges = match node.get2("edge_media_to_caption", "edges") {
        Some(e) => e.as_array(),
        None => None,
    };
    match edges {
        Some(edges) => {
            if edges.len() > 0 {
                match edges[0].get2("node", "text") {
                    Some(t) => copy_opt(t.as_str()),
                    None => None,
                }
            } else {
                None
            }
        },
        None => None,
    }
}

/// The timestamp of a node (`taken_at`, `taken_at_timestamp` or `date`).
pub fn taken_at_of(node: &Json) -> (r: Option<i64>)
    ensures
        r == taken_at_spec(*node),
{
    match member_trunc(node, "taken_at") {
        Some(t) => Some(t),
        None => match member_trunc(node, "taken_at_timestamp") {
            Some(t) => Some(t),
            None => member_trunc(node, "date"),
        },
    }
}

/// Whether a node is a video (`is_video` true or `media_type` 2).
pub fn is_video_node(node: &Json) -> (r: bool)
    ensures
        r == is_video_spec(*node),
{
    let flagged = match node.get("is_video") {
        Some(v) => v.as_bool(),
        None => None,
    };
    if flagged == Some(true) {
        return true;
    }
    member_trunc(node, "media_type") == Some(2i64)
}

/// The shortcode of a node (`code`, else `shortcode`).
pub fn shortcode_of(node: &Json) -> (r: Option<String>)
    ensures
        opt_view(r) == shortcode_spec(*node),
{
    match member_str(node, "code") {
        Some(s) => Some(s.clone()),
        None => copy_opt(member_str(node, "shortcode")),
    }
}

/// The asset a node yields, keyed `<shortcode>_<index>` when the post has
/// several; `None` when the node has no usable url.
pub fn asset_from_node(node: &Json, shortcode: &str, index: u32, multi: bool) -> (r: Option<Asset>)
    ensures
        match asset_spec(*node, shortcode@, index, multi) {
            Some(a) => (r matches Some(x) && x@ == a),
            None => r is None,
        },
{
    let video = is_video_node(node);
    let url = if video {
        match best_video_url(node) {
            Some(u) => u,
            None => match best_image_url(node) {
                Some(u) => u,
                None => return None,
            },
        }
    } else {
        match best_image_url(node) {
            Some(u) => u,
            None => return None,
        }
    };
    let ext = if video {
        String::from_str("mp4")
    } else {
        String::from_str("jpg")
    };
    let key = if multi {
        let mut k = String::from_str(shortcode);
        k.append("_");
        let d = decimal2_chars(index as u64);
        append_chars(&mut k, d.as_slice());
        k
    } else {
        String::from_str(shortcode)
    };
    let media_id = match member_id(node, "id") {
        Some(x) => Some(x),
        None => member_id(node, "pk"),
    };
    Some(
        Asset {
            key: key,
            shortcode: String::from_str(shortcode),
            index: index,
            url: url,
            is_video: video,
            ext: ext,
            taken_at: taken_at_of(node),
            caption: caption_of(node),
            media_id: media_id,
        },
    )
}

fn children_assets(children: &Vec<Json>, shortcode: &str, via_node: bool) -> (r: Vec<Asset>)
    ensures
        assets_view(r@) == children_spec(children@, shortcode@, via_node),
{
    let mut out: Vec<Asset> = Vec::new();
    let mut i: usize = 0;
    assert(children@.take(0) =~= Seq::<Json>::empty());
    while i < children.len()
        invariant
            i <= children.len(),
            assets_view(out@) == children_spec(children@.take(i as int), shortcode@, via_node),
        decreases children.len() - i,
    {
        assert(children@.take(i + 1).drop_last() =~= children@.take(i as int));
        assert(children@.take(i + 1).last() == children@[i as int]);
        let child: Option<&Json> = if via_node {
            children[i].get("node")
        } else {
            Some(&children[i])
        };
        match child {
            Some(c) => match asset_from_node(c, shortcode, i as u32, true) {
                Some(a) => {
                    out.push(a);
                    assert(assets_view(out@) =~= children_spec(
                        children@.take(i + 1),
                        shortcode@,
                        via_node,
                    ));
                },
                None => {},
            },
            None => {},
        }
        i += 1;
    }
    assert(children@.take(children.len() as int) =~= children@);
    out
}

/// Expand one post node (GraphQL or private-API shape) into its assets:
/// the carousel children, else the sidecar children, else the node itself;
/// nothing when the node has no shortcode.
pub fn expand_post(node: &Json) -> (r: Vec<Asset>)
    ensures
        assets_view(r@) == post_spec(*node),
{
    let shortcode = match shortcode_of(node) {
        Some(s) => s,
        None => {
            let empty: Vec<Asset> = Vec::new();
            assert(assets_view(empty@) =~= Seq::<AssetView>::empty());
            return empty;
        },
    };
    match node.get("carousel_media") {
        Some(c) => match c.as_array() {
            Some(children) => {
                if children.len() > 0 {
                    return children_assets(children, shortcode.as_str(), false);
                }
            },
            None => {},
        },
        None => {},
    }
    match node.get2("edge_sidecar_to_children", "edges") {
        Some(e) => match e.as_array() {
            Some(edges) => {
                if edges.len() > 0 {
                    return children_assets(edges, shortcode.as_str(), true);
                }
            },
            None => {},
        },
        None => {},
    }
    let mut out: Vec<Asset> = Vec::new();
    match asset_from_node(node, shortcode.as_str(), 0, false) {
        Some(a) => {
            out.push(a);
        },
        None => {},
    }
    assert(assets_view(out@) =~= post_spec(*node));
    out
}

} // verus!

verus! {

/// The post node of a connection entry: the `node` member of a GraphQL
/// edge (the edge itself when it has none), or the feed item itself.
pub open spec fn entry_node(e: Json, edges: bool) -> Json {
    if edges {
        match get_spec(e, "node"@) {
            Some(n) => n,
            None => e,
        }
    } else {
        e
    }
}

/// The assets of all posts of a connection, post after post.
pub open spec fn entries_assets(entries: Seq<Json>, edges: bool) -> Seq<AssetView>
    decreases entries.len(),
{
    if entries.len() == 0 {
        Seq::empty()
    } else {
        entries_assets(entries.drop_last(), edges) + post_spec(entry_node(entries.last(), edges))
    }
}

/// The shortcodes of the posts of a connection that have one.
pub open spec fn entries_keys(entries: Seq<Json>, edges: bool) -> Seq<Seq<char>>
    decreases entries.len(),
{
    if entries.len() == 0 {
        Seq::empty()
    } else {
        let rest = entries_keys(entries.drop_last(), edges);
        match shortcode_spec(entry_node(entries.last(), edges)) {
            Some(k) => rest.push(k),
            None => rest,
        }
    }
}

/// A connection as assets, post keys, whether more pages follow, and the
/// cursor of the next page: a non-empty GraphQL edge list with its
/// `page_info`, else a feed `items` list with `more_available` and
/// `next_max_id`, else nothing.
pub open spec fn connection_spec(data: Json) -> (
    Seq<AssetView>,
    Seq<Seq<char>>,
    bool,
    Option<Seq<char>>,
) {
    match array_of(get_spec(data, "edges"@)) {
        Some(edges) if edges.len() > 0 => (
            entries_assets(edges, true),
            entries_keys(edges, true),
            bool_of(path_spec(data, seq!["page_info"@, "has_next_page"@])) == Some(true),
            str_of(path_spec(data, seq!["page_info"@, "end_cursor"@])),
        ),
        _ => match array_of(get_spec(data, "items"@)) {
            Some(items) => (
                entries_assets(items, false),
                entries_keys(items, false),
                bool_of(get_spec(data, "more_available"@)) == Some(true),
                id_spec(get_spec(data, "next_max_id"@)),
            ),
            None => (Seq::empty(), Seq::empty(), false, None),
        },
    }
}

fn expand_entries(entries: &Vec<Json>, edges: bool) -> (r: (Vec<Asset>, Vec<String>))
    ensures
        assets_view(r.0@) == entries_assets(entries@, edges),
        strings_view(r.1@) == entries_keys(entries@, edges),
{
    let mut assets: Vec<Asset> = Vec::new();
    let mut keys: Vec<String> = Vec::new();
    let mut i: usize = 0;
    assert(entries@.take(0) =~= Seq::<Json>::empty());
    while i < entries.len()
        invariant
            i <= entries.len(),
            assets_view(assets@) == entries_assets(entries@.take(i as int), edges),
            strings_view(keys@) == entries_keys(entries@.take(i as int), edges),
        decreases entries.len() - i,
    {
        assert(entries@.take(i + 1).drop_last() =~= entries@.take(i as int));
        assert(entries@.take(i + 1).last() == entries@[i as int]);
        let e = &entries[i];
        let node: &Json = if edges {
            match e.get("node") {
                Some(n) => n,
                None => e,
            }
        } else {
            e
        };
        let mut expanded = expand_post(node);
        let ghost before = assets@;
        let ghost ex = expanded@;
        assets.append(&mut expanded);
        assert(assets_view(assets@) =~= assets_view(before) + assets_view(ex));
        match shortcode_of(node) {
            Some(k) => {
                keys.push(k);
                assert(strings_view(keys@) =~= entries_keys(entries@.take(i + 1), edges));
            },
            None => {},
        }
        i += 1;
    }
    assert(entries@.take(entries.len() as int) =~= entries@);
    (assets, keys)
}

/// Expand a GraphQL edge list (`{ edges: [ { node: ... } ] }`) or a feed
/// `items` list into assets, post keys, whether more pages follow and the
/// next cursor.
pub fn expand_connection(data: &Json) -> (r: (Vec<Asset>, Vec<String>, bool, Option<String>))
    ensures
        ({
            let s = connection_spec(*data);
            &&& assets_view(r.0@) == s.0
            &&& strings_view(r.1@) == s.1
            &&& r.2 == s.2
            &&& opt_view(r.3) == s.3
        }),
{
    let edges = match data.get("edges") {
        Some(e) => e.as_array(),
        None => None,
    };
    match edges {
        Some(edges) => {
            if edges.len() > 0 {
                let (assets, keys) = expand_entries(edges, true);
                let has_next = match data.get2("page_info", "has_next_page") {
                    Some(b) => b.as_bool(),
                    None => None,
                };
                let cursor = match data.get2("page_info", "end_cursor") {
                    Some(c) => copy_opt(c.as_str()),
                    None => None,
                };
                return (assets, keys, has_next == Some(true), cursor);
            }
        },
        None => {},
    }
    let items = match data.get("items") {
        Some(e) => e.as_array(),
        None => None,
    };
    match items {
        Some(items) => {
            let (assets, keys) = expand_entries(items, false);
            let more = match data.get("more_available") {
                Some(b) => b.as_bool(),
                None => None,
            };
            let cursor = member_id(data, "next_max_id");
            (assets, keys, more == Some(true), cursor)
        },
        None => {
            let assets: Vec<Asset> = Vec::new();
            let keys: Vec<String> = Vec::new();
            assert(assets_view(assets@) =~= Seq::<AssetView>::empty());
            assert(strings_view(keys@) =~= Seq::<Seq<char>>::empty());
            (assets, keys, false, None)
        },
    }
}

/// A feed (private API) cursor: empty, or made of digits and `_` with at
/// least one `_`.
pub open spec fn feed_cursor_spec(c: Seq<char>) -> bool {
    c.len() == 0 || (contains_spec(c, "_"@) && forall|i: int|
        0 <= i < c.len() ==> is_ascii_digit(#[trigger] c[i]) || c[i] == '_')
}

/// Whether a cursor belongs to the feed API (`<digits>_<digits>`) rather
/// than GraphQL; the empty cursor means "start the feed stream".
pub fn is_feed_cursor(cursor: &str) -> (r: bool)
    ensures
        r == feed_cursor_spec(cursor@),
{
    let cs = chars_of(cursor);
    if cs.len() == 0 {
        return true;
    }
    if !crate::text::contains_str(cs.as_slice(), "_") {
        return false;
    }
    let mut i: usize = 0;
    while i < cs.len()
        invariant
            i <= cs.len(),
            cs@ == cursor@,
            forall|k: int| 0 <= k < i ==> is_ascii_digit(#[trigger] cs@[k]) || cs@[k] == '_',
        decreases cs.len() - i,
    {
        let c = cs[i];
        if !(('0' <= c && c <= '9') || c == '_') {
            return false;
        }
        i += 1;
    }
    true
}

} // verus!

verus! {

proof fn lemma_children_shortcode(children: Seq<Json>, sc: Seq<char>, via_node: bool)
    ensures
        forall|i: int|
            0 <= i < children_spec(children, sc, via_node).len() ==> (#[trigger] children_spec(
                children,
                sc,
                via_node,
            )[i]).shortcode == sc && children_spec(children, sc, via_node)[i].index
                < children.len() && children_spec(children, sc, via_node)[i].key == key_spec(
                sc,
                children_spec(children, sc, via_node)[i].index,
                true,
            ),
        children_spec(children, sc, via_node).len() <= children.len(),
    decreases children.len(),
{
    if children.len() > 0 {
        lemma_children_shortcode(children.drop_last(), sc, via_node);
        let rest = children_spec(children.drop_last(), sc, via_node);
        let all = children_spec(children, sc, via_node);
        assert forall|i: int| 0 <= i < all.len() implies (#[trigger] all[i]).shortcode == sc
            && all[i].index < children.len() && all[i].key == key_spec(sc, all[i].index, true) by {
            if i < rest.len() {
                assert(all[i] == rest[i]);
            }
        }
    }
}

/// Whether a post node has carousel or sidecar children.
pub open spec fn has_children(node: Json) -> bool {
    (array_of(get_spec(node, "carousel_media"@)) matches Some(c) && c.len() > 0) || (array_of(
        path_spec(node, seq!["edge_sidecar_to_children"@, "edges"@]),
    ) matches Some(e) && e.len() > 0)
}

/// Every asset of a post carries the post's shortcode, and is keyed
/// `<shortcode>_<index>` when the post has children, by the shortcode
/// alone otherwise.
pub proof fn lemma_post_assets_keyed(node: Json)
    ensures
        forall|i: int|
            0 <= i < post_spec(node).len() ==> (#[trigger] post_spec(node)[i]).shortcode
                == shortcode_spec(node)->Some_0 && post_spec(node)[i].key == key_spec(
                shortcode_spec(node)->Some_0,
                post_spec(node)[i].index,
                has_children(node),
            ),
{
    match shortcode_spec(node) {
        None => {},
        Some(sc) => {
            match array_of(get_spec(node, "carousel_media"@)) {
                Some(children) if children.len() > 0 => {
                    lemma_children_shortcode(children, sc, false);
                },
                _ => match array_of(path_spec(node, seq!["edge_sidecar_to_children"@, "edges"@])) {
                    Some(edges) if edges.len() > 0 => {
                        lemma_children_shortcode(edges, sc, true);
                    },
                    _ => {},
                },
            }
        },
    }
}


/// Each sidecar asset comes from the `node` member of an edge, numbered by
/// the edge's position, and every edge whose `node` yields an asset
/// contributes that asset.
proof fn lemma_sidecar_children(edges: Seq<Json>, sc: Seq<char>)
    ensures
        forall|k: int|
            0 <= k < children_spec(edges, sc, true).len() ==> exists|i: int|
                0 <= i < edges.len() && (#[trigger] get_spec(edges[i], "node"@)) is Some
                    && asset_spec(get_spec(edges[i], "node"@)->Some_0, sc, i as u32, true) == Some(
                    #[trigger] children_spec(edges, sc, true)[k],
                ),
        forall|i: int|
            0 <= i < edges.len() && (#[trigger] get_spec(edges[i], "node"@)) is Some
                && asset_spec(get_spec(edges[i], "node"@)->Some_0, sc, i as u32, true) is Some
                ==> children_spec(edges, sc, true).contains(
                asset_spec(get_spec(edges[i], "node"@)->Some_0, sc, i as u32, true)->Some_0,
            ),
    decreases edges.len(),
{
    if edges.len() > 0 {
        let init = edges.drop_last();
        lemma_sidecar_children(init, sc);
        let rest = children_spec(init, sc, true);
        let all = children_spec(edges, sc, true);
        let last = edges.len() - 1;
        assert(edges[last] == edges.last());
        assert forall|k: int| 0 <= k < all.len() implies exists|i: int|
            0 <= i < edges.len() && (#[trigger] get_spec(edges[i], "node"@)) is Some
                && asset_spec(get_spec(edges[i], "node"@)->Some_0, sc, i as u32, true) == Some(
                #[trigger] all[k],
            ) by {
            if k < rest.len() {
                assert(all[k] == rest[k]);
                let i = choose|i: int|
                    0 <= i < init.len() && (#[trigger] get_spec(init[i], "node"@)) is Some
                        && asset_spec(get_spec(init[i], "node"@)->Some_0, sc, i as u32, true)
                        == Some(rest[k]);
                assert(init[i] == edges[i]);
            } else {
                assert(get_spec(edges[last], "node"@) is Some);
            }
        }
        assert forall|i: int|
            0 <= i < edges.len() && (#[trigger] get_spec(edges[i], "node"@)) is Some
                && asset_spec(get_spec(edges[i], "node"@)->Some_0, sc, i as u32, true)
                is Some implies all.contains(
            asset_spec(get_spec(edges[i], "node"@)->Some_0, sc, i as u32, true)->Some_0,
        ) by {
            let a = asset_spec(get_spec(edges[i], "node"@)->Some_0, sc, i as u32, true)->Some_0;
            if i < last {
                assert(init[i] == edges[i]);
                assert(get_spec(init[i], "node"@) is Some);
                assert(rest.contains(a));
                let j = choose|j: int| 0 <= j < rest.len() && rest[j] == a;
                assert(all[j] == rest[j]);
            } else {
                assert(all[rest.len() as int] == a);
            }
        }
    }
}

/// A classic GraphQL sidecar post (a shortcode, no carousel, a non-empty
/// list of sidecar edges) expands into the assets of its edges' `node`
/// members: every asset is that of some edge's node at that edge's
/// position (keyed `<shortcode>_<NN>`), and every edge whose node has a url
/// yields its asset.
pub proof fn lemma_sidecar_assets_from_nodes(node: Json, sc: Seq<char>, edges: Seq<Json>)
    requires
        shortcode_spec(node) == Some(sc),
        !(array_of(get_spec(node, "carousel_media"@)) matches Some(c) && c.len() > 0),
        array_of(path_spec(node, seq!["edge_sidecar_to_children"@, "edges"@])) == Some(edges),
        edges.len() > 0,
    ensures
        forall|k: int|
            0 <= k < post_spec(node).len() ==> exists|i: int|
                0 <= i < edges.len() && (#[trigger] get_spec(edges[i], "node"@)) is Some
                    && asset_spec(get_spec(edges[i], "node"@)->Some_0, sc, i as u32, true) == Some(
                    #[trigger] post_spec(node)[k],
                ),
        forall|i: int|
            0 <= i < edges.len() && (#[trigger] get_spec(edges[i], "node"@)) is Some
                && asset_spec(get_spec(edges[i], "node"@)->Some_0, sc, i as u32, true) is Some
                ==> post_spec(node).contains(
                asset_spec(get_spec(edges[i], "node"@)->Some_0, sc, i as u32, true)->Some_0,
            ),
        forall|k: int|
            0 <= k < post_spec(node).len() ==> (#[trigger] post_spec(node)[k]).key == key_spec(
                sc,
                post_spec(node)[k].index,
                true,
            ),
{
    lemma_sidecar_children(edges, sc);
    assert(post_spec(node) == children_spec(edges, sc, true));
    lemma_post_assets_keyed(node);
    assert(has_children(node));
}


/// Each carousel asset is that of a child at the child's position, and
/// every child that has a url contributes its asset.
proof fn lemma_carousel_children(children: Seq<Json>, sc: Seq<char>)
    ensures
        forall|k: int|
            0 <= k < children_spec(children, sc, false).len() ==> exists|i: int|
                0 <= i < children.len() && asset_spec(#[trigger] children[i], sc, i as u32, true)
                    == Some(#[trigger] children_spec(children, sc, false)[k]),
        forall|i: int|
            0 <= i < children.len() && asset_spec(#[trigger] children[i], sc, i as u32, true)
                is Some ==> children_spec(children, sc, false).contains(
                asset_spec(children[i], sc, i as u32, true)->Some_0,
            ),
    decreases children.len(),
{
    if children.len() > 0 {
        let init = children.drop_last();
        lemma_carousel_children(init, sc);
        let rest = children_spec(init, sc, false);
        let all = children_spec(children, sc, false);
        let last = children.len() - 1;
        assert(children[last] == children.last());
        assert forall|k: int| 0 <= k < all.len() implies exists|i: int|
            0 <= i < children.len() && asset_spec(#[trigger] children[i], sc, i as u32, true)
                == Some(#[trigger] all[k]) by {
            if k < rest.len() {
                assert(all[k] == rest[k]);
                let i = choose|i: int|
                    0 <= i < init.len() && asset_spec(#[trigger] init[i], sc, i as u32, true)
                        == Some(rest[k]);
                assert(init[i] == children[i]);
            } else {
                assert(asset_spec(children[last], sc, last as u32, true) == Some(all[k]));
            }
        }
        assert forall|i: int|
            0 <= i < children.len() && asset_spec(#[trigger] children[i], sc, i as u32, true)
                is Some implies all.contains(asset_spec(children[i], sc, i as u32, true)->Some_0) by {
            let a = asset_spec(children[i], sc, i as u32, true)->Some_0;
            if i < last {
                assert(init[i] == children[i]);
                assert(rest.contains(a));
                let j = choose|j: int| 0 <= j < rest.len() && rest[j] == a;
                assert(all[j] == rest[j]);
            } else {
                assert(all[rest.len() as int] == a);
            }
        }
    }
}

/// A carousel post (a shortcode and a non-empty `carousel_media` list)
/// expands into the assets of its children: every asset is that of some
/// child at that child's position (keyed `<shortcode>_<NN>`), and every
/// child that has a url yields its asset.
pub proof fn lemma_carousel_assets_from_children(node: Json, sc: Seq<char>, children: Seq<Json>)
    requires
        shortcode_spec(node) == Some(sc),
        array_of(get_spec(node, "carousel_media"@)) == Some(children),
        children.len() > 0,
    ensures
        forall|k: int|
            0 <= k < post_spec(node).len() ==> exists|i: int|
                0 <= i < children.len() && asset_spec(#[trigger] children[i], sc, i as u32, true)
                    == Some(#[trigger] post_spec(node)[k]),
        forall|i: int|
            0 <= i < children.len() && asset_spec(#[trigger] children[i], sc, i as u32, true)
                is Some ==> post_spec(node).contains(
                asset_spec(children[i], sc, i as u32, true)->Some_0,
            ),
{
    lemma_carousel_children(children, sc);
    assert(post_spec(node) == children_spec(children, sc, false));
}

/// A post with neither carousel nor sidecar children yields at most one
/// asset, keyed by its shortcode alone: the asset of the node itself.
pub proof fn lemma_single_post_asset(node: Json, sc: Seq<char>)
    requires
        shortcode_spec(node) == Some(sc),
        !has_children(node),
    ensures
        asset_spec(node, sc, 0, false) matches Some(a) ==> post_spec(node) == seq![a] && a.key
            == sc,
        asset_spec(node, sc, 0, false) is None ==> post_spec(node).len() == 0,
{
}

} // verus!
