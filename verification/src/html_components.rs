//! Dashboard markup: gallery tiles, status blocks and the page template.

use vstd::prelude::*;
use crate::text::{replace, replace_all, starts_with, str_eq};
use crate::utility::{
    extension_for, extension_text, names_sorted, opt_str_view, opt_view, sort_names, views,
};

verus! {

/// Markup that plays a stored video.
pub open spec fn video_text(name: Seq<char>) -> Seq<char> {
    r#"<video src="/"#@
        + name
        + r#"" alt=""#@
        + name
        + r#"" muted loop autoplay playsinline preload="metadata" class="w-full h-auto block"></video>"#@
}

/// Builds the markup that plays a stored video.
fn video_media(name: &str) -> (html: String)
    ensures
        html@ == video_text(name@),
{
    let html = String::from_str(r#"<video src="/"#)
        .concat(name)
        .concat(r#"" alt=""#)
        .concat(name)
        .concat(r#"" muted loop autoplay playsinline preload="metadata" class="w-full h-auto block"></video>"#);
    assert(html@ =~= video_text(name@));
    html
}

/// Markup that shows a stored image.
pub open spec fn image_text(name: Seq<char>) -> Seq<char> {
    r#"<img src="/"#@
        + name
        + r#"" alt=""#@
        + name
        + r#"" class="w-full h-auto block">"#@
}

/// Builds the markup that shows a stored image.
fn image_media(name: &str) -> (html: String)
    ensures
        html@ == image_text(name@),
{
    let html = String::from_str(r#"<img src="/"#)
        .concat(name)
        .concat(r#"" alt=""#)
        .concat(name)
        .concat(r#"" class="w-full h-auto block">"#);
    assert(html@ =~= image_text(name@));
    html
}

/// One gallery tile around its media markup.
pub open spec fn tile_frame_text(name: Seq<char>, ext: Seq<char>, media: Seq<char>) -> Seq<char> {
    r#"<figure class="tile group relative mb-4 break-inside-avoid rounded-xl border border-mocha-surface0/80 hover:border-mocha-mauve/50 overflow-hidden bg-mocha-mantle shadow-tile hover:shadow-glow transition-all duration-200 cursor-pointer" data-name=""#@
        + name
        + r#"" data-ext=""#@
        + ext
        + r#"" style="view-transition-name: tile-"#@
        + name
        + r#"">
  "#@
        + media
        + r#"
  <figcaption class="absolute bottom-2 left-2 text-[10px] text-mocha-text bg-mocha-crust/80 backdrop-blur-sm px-2 py-0.5 rounded-md border border-mocha-surface0/60 opacity-0 group-hover:opacity-100 transition">"#@
        + name
        + r#"</figcaption>
  <button type="button" aria-label="Delete "#@
        + name
        + r#"" title="Delete "#@
        + name
        + r#"" data-name=""#@
        + name
        + r#""
    class="absolute bottom-2 right-2 w-7 h-7 flex items-center justify-center rounded-md
           bg-mocha-crust/80 hover:bg-mocha-red border border-mocha-surface0/60 hover:border-mocha-red text-mocha-subtext0 hover:text-mocha-crust
           text-lg leading-none opacity-0 group-hover:opacity-100 transition cursor-pointer">&times;</button>
</figure>"#@
}

/// Builds one gallery tile around its media markup.
fn tile_frame(name: &str, ext: &str, media: &str) -> (html: String)
    ensures
        html@ == tile_frame_text(name@, ext@, media@),
{
    let html = String::from_str(r#"<figure class="tile group relative mb-4 break-inside-avoid rounded-xl border border-mocha-surface0/80 hover:border-mocha-mauve/50 overflow-hidden bg-mocha-mantle shadow-tile hover:shadow-glow transition-all duration-200 cursor-pointer" data-name=""#)
        .concat(name)
        .concat(r#"" data-ext=""#)
        .concat(ext)
        .concat(r#"" style="view-transition-name: tile-"#)
        .concat(name)
        .concat(r#"">
  "#)
        .concat(media)
        .concat(r#"
  <figcaption class="absolute bottom-2 left-2 text-[10px] text-mocha-text bg-mocha-crust/80 backdrop-blur-sm px-2 py-0.5 rounded-md border border-mocha-surface0/60 opacity-0 group-hover:opacity-100 transition">"#)
        .concat(name)
        .concat(r#"</figcaption>
  <button type="button" aria-label="Delete "#)
        .concat(name)
        .concat(r#"" title="Delete "#)
        .concat(name)
        .concat(r#"" data-name=""#)
        .concat(name)
        .concat(r#""
    class="absolute bottom-2 right-2 w-7 h-7 flex items-center justify-center rounded-md
           bg-mocha-crust/80 hover:bg-mocha-red border border-mocha-surface0/60 hover:border-mocha-red text-mocha-subtext0 hover:text-mocha-crust
           text-lg leading-none opacity-0 group-hover:opacity-100 transition cursor-pointer">&times;</button>
</figure>"#);
    assert(html@ =~= tile_frame_text(name@, ext@, media@));
    html
}

/// The dashboard content that the client script swaps in.
pub open spec fn fragment_text(message: Seq<char>, gallery: Seq<char>) -> Seq<char> {
    r#"<div id="dashboard-content">
  "#@
        + message
        + r#"
  <section class="mt-12">
    <h2 class="text-xs uppercase font-medium tracking-wider text-mocha-subtext0 mb-4 text-center">Current images</h2>
    <div class="columns-2 md:columns-3 lg:columns-4 gap-4">
      "#@
        + gallery
        + r#"
    </div>
  </section>
</div>"#@
}

/// Renders the dashboard content fragment swapped by the client script.
pub fn dashboard_fragment(gallery: &str, message: &str) -> (html: String)
    ensures
        html@ == fragment_text(message@, gallery@),
{
    let html = String::from_str(r#"<div id="dashboard-content">
  "#)
        .concat(message)
        .concat(r#"
  <section class="mt-12">
    <h2 class="text-xs uppercase font-medium tracking-wider text-mocha-subtext0 mb-4 text-center">Current images</h2>
    <div class="columns-2 md:columns-3 lg:columns-4 gap-4">
      "#)
        .concat(gallery)
        .concat(r#"
    </div>
  </section>
</div>"#);
    assert(html@ =~= fragment_text(message@, gallery@));
    html
}

/// A green status message.
pub open spec fn success_simple_text(message: Seq<char>) -> Seq<char> {
    r#"<div class="max-w-2xl mx-auto mt-6 animate-slide-down">
  <div class="bg-mocha-green/10 border border-mocha-green/30 p-4 rounded-xl text-center">
    <p class="text-sm text-mocha-green">"#@
        + message
        + r#"</p>
  </div>
</div>"#@
}

/// Renders a simple green dashboard status message.
pub fn success_block_simple(message: &str) -> (html: String)
    ensures
        html@ == success_simple_text(message@),
{
    let html = String::from_str(r#"<div class="max-w-2xl mx-auto mt-6 animate-slide-down">
  <div class="bg-mocha-green/10 border border-mocha-green/30 p-4 rounded-xl text-center">
    <p class="text-sm text-mocha-green">"#)
        .concat(message)
        .concat(r#"</p>
  </div>
</div>"#);
    assert(html@ =~= success_simple_text(message@));
    html
}

/// A success message with a copyable public URL.
pub open spec fn success_url_text(name: Seq<char>, url: Seq<char>) -> Seq<char> {
    r#"<div class="max-w-2xl mx-auto mt-6 animate-slide-down">
  <h2 class="text-sm font-semibold text-mocha-green mb-2">Added ""#@
        + name
        + r#""</h2>
  <div class="group relative">
    <div class="absolute -inset-0.5 bg-mocha-green/20 blur opacity-75 group-hover:opacity-100 transition rounded-lg"></div>
    <div class="relative flex items-center bg-mocha-crust p-1 rounded-lg border border-mocha-surface0">
      <input type="text" readonly value=""#@
        + url
        + r#"" id="result-url"
        class="flex-grow bg-transparent p-2 font-mono text-xs text-mocha-text outline-none">
      <button type="button" id="copy-btn"
        class="rounded-md bg-mocha-green/15 hover:bg-mocha-green/25
               border border-mocha-green/30 text-mocha-green text-xs font-medium px-3 py-1.5 mr-1
               opacity-0 group-hover:opacity-100 transition cursor-pointer">copy</button>
    </div>
  </div>
</div>"#@
}

/// Renders a success message containing a copyable public URL.
pub fn success_block_with_url(name: &str, url: &str) -> (html: String)
    ensures
        html@ == success_url_text(name@, url@),
{
    let html = String::from_str(r#"<div class="max-w-2xl mx-auto mt-6 animate-slide-down">
  <h2 class="text-sm font-semibold text-mocha-green mb-2">Added ""#)
        .concat(name)
        .concat(r#""</h2>
  <div class="group relative">
    <div class="absolute -inset-0.5 bg-mocha-green/20 blur opacity-75 group-hover:opacity-100 transition rounded-lg"></div>
    <div class="relative flex items-center bg-mocha-crust p-1 rounded-lg border border-mocha-surface0">
      <input type="text" readonly value=""#)
        .concat(url)
        .concat(r#"" id="result-url"
        class="flex-grow bg-transparent p-2 font-mono text-xs text-mocha-text outline-none">
      <button type="button" id="copy-btn"
        class="rounded-md bg-mocha-green/15 hover:bg-mocha-green/25
               border border-mocha-green/30 text-mocha-green text-xs font-medium px-3 py-1.5 mr-1
               opacity-0 group-hover:opacity-100 transition cursor-pointer">copy</button>
    </div>
  </div>
</div>"#);
    assert(html@ =~= success_url_text(name@, url@));
    html
}

/// A red error message.
pub open spec fn error_text(msg: Seq<char>) -> Seq<char> {
    r#"<div class="max-w-2xl mx-auto mt-6 animate-slide-down">
  <div class="bg-mocha-red/10 border border-mocha-red/30 p-4 rounded-xl">
    <h2 class="text-sm font-semibold text-mocha-red mb-1">Nope</h2>
    <p class="text-xs text-mocha-red/80">"#@
        + msg
        + r#"</p>
  </div>
</div>"#@
}

/// Renders a red dashboard error message.
pub fn error_block(msg: &str) -> (html: String)
    ensures
        html@ == error_text(msg@),
{
    let html = String::from_str(r#"<div class="max-w-2xl mx-auto mt-6 animate-slide-down">
  <div class="bg-mocha-red/10 border border-mocha-red/30 p-4 rounded-xl">
    <h2 class="text-sm font-semibold text-mocha-red mb-1">Nope</h2>
    <p class="text-xs text-mocha-red/80">"#)
        .concat(msg)
        .concat(r#"</p>
  </div>
</div>"#);
    assert(html@ =~= error_text(msg@));
    html
}

/// One gallery tile for an image or a video.
pub open spec fn tile_text(name: Seq<char>, is_video: bool, ext: Seq<char>) -> Seq<char> {
    let media = if is_video {
        video_text(name)
    } else {
        image_text(name)
    };
    tile_frame_text(name, ext, media)
}

/// Builds one gallery tile for an image or video.
pub fn gallery_tile(name: &str, is_video: bool, ext: &str) -> (html: String)
    ensures
        html@ == tile_text(name@, is_video, ext@),
{
    let media = if is_video {
        video_media(name)
    } else {
        image_media(name)
    };
    tile_frame(name, ext, media.as_str())
}

/// Whether the request asks for the dashboard fragment only: its
/// `X-Requested-With` header reads `fetch`.
pub open spec fn partial_spec(requested_with: Option<Seq<char>>) -> bool {
    requested_with == Some("fetch"@)
}

/// Reports whether the request asks for the dashboard fragment only, given
/// its `X-Requested-With` header.
pub fn is_partial_request(requested_with: Option<&str>) -> (partial: bool)
    ensures
        partial == partial_spec(opt_str_view(requested_with)),
{
    match requested_with {
        Some(v) => str_eq(v, "fetch"),
        None => false,
    }
}

/// The full dashboard page: the template with the key and the content
/// fragment put in place of its markers.
pub open spec fn page_text(template: Seq<char>, key: Seq<char>, content: Seq<char>) -> Seq<char> {
    replace_all(replace_all(template, "__KEY__"@, key), "__CONTENT__"@, content)
}

/// The dashboard response body: the fragment alone for partial requests,
/// otherwise the full page built from the template.
pub open spec fn page_or_fragment_text(
    partial: bool,
    template: Seq<char>,
    key: Seq<char>,
    gallery: Seq<char>,
    message: Seq<char>,
) -> Seq<char> {
    if partial {
        fragment_text(message, gallery)
    } else {
        page_text(template, key, fragment_text(message, gallery))
    }
}

/// Chooses a full-page or fragment body for the dashboard.
pub fn render_page_or_fragment(
    partial: bool,
    template: &str,
    key: &str,
    gallery: &str,
    message: &str,
) -> (html: String)
    ensures
        html@ == page_or_fragment_text(partial, template@, key@, gallery@, message@),
{
    let fragment = dashboard_fragment(gallery, message);
    if partial {
        fragment
    } else {
        proof {
            reveal_strlit("__KEY__");
            reveal_strlit("__CONTENT__");
        }
        let with_key = replace(template, "__KEY__", key);
        replace(with_key.as_str(), "__CONTENT__", fragment.as_str())
    }
}

/// Whether a listed name gets a tile of its own: it is neither the name
/// being skipped nor the one already shown first.
pub open spec fn keeps(name: Seq<char>, prepend: Option<Seq<char>>, skip: Option<Seq<char>>) -> bool {
    skip != Some(name) && prepend != Some(name)
}

/// The names to show in the gallery after the prepended one: the listed
/// names without the skipped and the prepended one, in ascending order.
pub fn gallery_names(names: &Vec<String>, prepend: Option<&str>, skip: Option<&str>) -> (listed: Vec<
    String,
>)
    ensures
        names_sorted(views(listed@)),
        views(listed@).to_multiset() =~= views(names@).filter(
            |n: Seq<char>| keeps(n, opt_str_view(prepend), opt_str_view(skip)),
        ).to_multiset(),
{
    let ghost pred = |n: Seq<char>| keeps(n, opt_str_view(prepend), opt_str_view(skip));
    let mut kept: Vec<String> = Vec::new();
    let mut i: usize = 0;
    assert(views(names@).take(0) =~= Seq::<Seq<char>>::empty());
    proof {
        reveal(Seq::filter);
    }
    while i < names.len()
        invariant
            i <= names@.len(),
            pred == (|n: Seq<char>| keeps(n, opt_str_view(prepend), opt_str_view(skip))),
            views(kept@) =~= views(names@).take(i as int).filter(pred),
        decreases names.len() - i,
    {
        let name = names[i].as_str();
        let skipped = match skip {
            Some(s) => str_eq(s, name),
            None => false,
        };
        let shown_first = match prepend {
            Some(p) => str_eq(p, name),
            None => false,
        };
        proof {
            views(names@).take(i as int).lemma_filter_push(names@[i as int]@, pred);
            assert(views(names@).take(i + 1) =~= views(names@).take(i as int).push(names@[i as int]@));
        }
        if !skipped && !shown_first {
            kept.push(names[i].clone());
        }
        i = i + 1;
    }
    assert(views(names@).take(names@.len() as int) =~= views(names@));
    sort_names(&kept)
}

/// Whether a listed image is a video, and its public extension, from its
/// stored MIME type (unreadable metadata: an image without extension).
pub open spec fn media_of(content_type: Option<Seq<char>>) -> (bool, Seq<char>) {
    match content_type {
        Some(ct) => ("video/"@.is_prefix_of(ct), extension_text(ct)),
        None => (false, Seq::empty()),
    }
}

/// The tile of a listed name.
pub open spec fn listed_tile_text(name: Seq<char>, content_type: Option<Seq<char>>) -> Seq<char> {
    tile_text(name, media_of(content_type).0, media_of(content_type).1)
}

/// Builds the tile of a listed name from its stored MIME type, if any.
pub fn listed_tile(name: &str, content_type: Option<&str>) -> (html: String)
    ensures
        html@ == listed_tile_text(name@, opt_str_view(content_type)),
{
    match content_type {
        Some(ct) => gallery_tile(name, starts_with(ct, "video/"), extension_for(ct)),
        None => {
            proof {
                reveal_strlit("");
                assert(""@ =~= Seq::<char>::empty());
            }
            gallery_tile(name, false, "")
        },
    }
}

/// The views of gallery entries: each name with its stored MIME type, if any.
pub open spec fn entries_view(entries: Seq<(String, Option<String>)>) -> Seq<
    (Seq<char>, Option<Seq<char>>),
> {
    entries.map_values(|e: (String, Option<String>)| (e.0@, opt_view(e.1)))
}

/// The tiles of the listed entries, in order.
pub open spec fn entries_text(entries: Seq<(Seq<char>, Option<Seq<char>>)>) -> Seq<char>
    decreases entries.len(),
{
    if entries.len() == 0 {
        Seq::empty()
    } else {
        entries_text(entries.drop_last()) + listed_tile_text(entries.last().0, entries.last().1)
    }
}

/// The gallery markup: the prepended image first (named with its MIME
/// type), then one tile per listed entry.
pub open spec fn gallery_text(
    prepend: Option<(Seq<char>, Seq<char>)>,
    entries: Seq<(Seq<char>, Option<Seq<char>>)>,
) -> Seq<char> {
    match prepend {
        Some(p) => listed_tile_text(p.0, Some(p.1)) + entries_text(entries),
        None => entries_text(entries),
    }
}

/// The view of an optional prepended name and MIME type.
pub open spec fn prepend_view(prepend: Option<(&str, &str)>) -> Option<(Seq<char>, Seq<char>)> {
    match prepend {
        Some(p) => Some((p.0@, p.1@)),
        None => None,
    }
}

/// Builds gallery markup from the prepended image and the listed entries.
pub fn render_gallery(prepend: Option<(&str, &str)>, entries: &Vec<(String, Option<String>)>) -> (html:
    String)
    ensures
        html@ == gallery_text(prepend_view(prepend), entries_view(entries@)),
{
    let mut out = String::new();
    match prepend {
        Some((name, ct)) => {
            out.append(listed_tile(name, Some(ct)).as_str());
        },
        None => {},
    }
    let ghost start = out@;
    let ghost all = entries_view(entries@);
    let mut i: usize = 0;
    assert(all.take(0) =~= Seq::<(Seq<char>, Option<Seq<char>>)>::empty());
    while i < entries.len()
        invariant
            i <= entries@.len(),
            all == entries_view(entries@),
            out@ == start + entries_text(all.take(i as int)),
        decreases entries.len() - i,
    {
        let content_type: Option<&str> = match &entries[i].1 {
            Some(ct) => Some(ct.as_str()),
            None => None,
        };
        let tile = listed_tile(entries[i].0.as_str(), content_type);
        out.append(tile.as_str());
        proof {
            assert(all.take(i + 1).drop_last() =~= all.take(i as int));
            assert(all.take(i + 1).last() == all[i as int]);
            assert(opt_str_view(content_type) == all[i as int].1);
        }
        i = i + 1;
    }
    assert(all.take(entries@.len() as int) =~= all);
    out
}

/// The gallery never lists the skipped name (a just-deleted image) nor,
/// again, the prepended one (a just-added image shown first).
pub proof fn lemma_gallery_omits_skipped_and_prepended(
    names: Seq<Seq<char>>,
    listed: Seq<Seq<char>>,
    prepend: Option<Seq<char>>,
    skip: Option<Seq<char>>,
)
    requires
        listed.to_multiset() =~= names.filter(|n: Seq<char>| keeps(n, prepend, skip)).to_multiset(),
    ensures
        forall|i: int| 0 <= i < listed.len() ==> skip != Some(#[trigger] listed[i]) && prepend != Some(
            listed[i],
        ),
{
    broadcast use vstd::seq_lib::group_to_multiset_ensures;

    let pred = |n: Seq<char>| keeps(n, prepend, skip);
    let kept = names.filter(pred);
    listed.to_multiset_ensures();
    kept.to_multiset_ensures();
    assert forall|i: int| 0 <= i < listed.len() implies skip != Some(#[trigger] listed[i]) && prepend
        != Some(listed[i]) by {
        assert(listed.to_multiset().count(listed[i]) > 0);
        assert(kept.contains(listed[i]));
        let k = choose|k: int| 0 <= k < kept.len() && kept[k] == listed[i];
        names.lemma_filter_pred(pred, k);
    }
}


/// How often a name occurs among the names kept by a filter.
proof fn lemma_filter_count<A>(s: Seq<A>, pred: spec_fn(A) -> bool, x: A)
    ensures
        s.filter(pred).to_multiset().count(x) == if pred(x) {
            s.to_multiset().count(x)
        } else {
            0
        },
    decreases s.len(),
{
    broadcast use vstd::seq_lib::group_to_multiset_ensures;

    if s.len() == 0 {
        reveal(Seq::filter);
        assert(s.filter(pred) =~= s);
    } else {
        let pre = s.drop_last();
        lemma_filter_count(pre, pred, x);
        assert(s =~= pre.push(s.last()));
        pre.lemma_filter_push(s.last(), pred);
        pre.to_multiset_ensures();
        pre.filter(pred).to_multiset_ensures();
    }
}

/// The gallery lists every stored name as often as it is stored, except the
/// skipped name and the prepended name, which it leaves out entirely.
pub proof fn lemma_gallery_lists_other_names(
    names: Seq<Seq<char>>,
    listed: Seq<Seq<char>>,
    prepend: Option<Seq<char>>,
    skip: Option<Seq<char>>,
    n: Seq<char>,
)
    requires
        listed.to_multiset() =~= names.filter(|m: Seq<char>| keeps(m, prepend, skip)).to_multiset(),
    ensures
        listed.to_multiset().count(n) == if Some(n) != skip && Some(n) != prepend {
            names.to_multiset().count(n)
        } else {
            0
        },
        Some(n) != skip && Some(n) != prepend && names.contains(n) ==> listed.contains(n),
{
    broadcast use vstd::seq_lib::group_to_multiset_ensures;

    lemma_filter_count(names, |m: Seq<char>| keeps(m, prepend, skip), n);
    names.to_multiset_ensures();
    listed.to_multiset_ensures();
}

} // verus!
