use img_proxy::html_components::{
    dashboard_fragment, error_block, gallery_names, gallery_tile, is_partial_request, listed_tile,
    render_gallery, render_page_or_fragment, success_block_simple, success_block_with_url,
};

fn expected_tile(name: &str, is_video: bool, ext: &str) -> String {
    let media = if is_video {
        format!(
            r#"<video src="/{name}" alt="{name}" muted loop autoplay playsinline preload="metadata" class="w-full h-auto block"></video>"#,
            name = name
        )
    } else {
        format!(r#"<img src="/{name}" alt="{name}" class="w-full h-auto block">"#, name = name)
    };
    format!(
        r#"<figure class="tile group relative mb-4 break-inside-avoid rounded-xl border border-mocha-surface0/80 hover:border-mocha-mauve/50 overflow-hidden bg-mocha-mantle shadow-tile hover:shadow-glow transition-all duration-200 cursor-pointer" data-name="{name}" data-ext="{ext}" style="view-transition-name: tile-{name}">
  {media}
  <figcaption class="absolute bottom-2 left-2 text-[10px] text-mocha-text bg-mocha-crust/80 backdrop-blur-sm px-2 py-0.5 rounded-md border border-mocha-surface0/60 opacity-0 group-hover:opacity-100 transition">{name}</figcaption>
  <button type="button" aria-label="Delete {name}" title="Delete {name}" data-name="{name}"
    class="absolute bottom-2 right-2 w-7 h-7 flex items-center justify-center rounded-md
           bg-mocha-crust/80 hover:bg-mocha-red border border-mocha-surface0/60 hover:border-mocha-red text-mocha-subtext0 hover:text-mocha-crust
           text-lg leading-none opacity-0 group-hover:opacity-100 transition cursor-pointer">&times;</button>
</figure>"#,
        name = name,
        ext = ext,
        media = media
    )
}

#[test]
fn tiles_match_markup() {
    assert_eq!(gallery_tile("cat", false, ".png"), expected_tile("cat", false, ".png"));
    assert_eq!(gallery_tile("clip", true, ".mp4"), expected_tile("clip", true, ".mp4"));
    assert_eq!(listed_tile("clip", Some("video/webm")), expected_tile("clip", true, ".webm"));
    assert_eq!(listed_tile("x", Some("image/svg+xml")), expected_tile("x", false, ".svg"));
    assert_eq!(listed_tile("x", None), expected_tile("x", false, ""));
}

#[test]
fn fragment_and_blocks_match_markup() {
    let fragment = dashboard_fragment("<g/>", "<m/>");
    assert!(fragment.starts_with("<div id=\"dashboard-content\">\n  <m/>\n  <section class=\"mt-12\">"));
    assert!(fragment.contains("\n      <g/>\n    </div>"));
    assert!(fragment.ends_with("</section>\n</div>"));
    let simple = success_block_simple("Deleted \"cat\"");
    assert!(simple.contains("<p class=\"text-sm text-mocha-green\">Deleted \"cat\"</p>"));
    let with_url = success_block_with_url("cat", "https://h/cat.png");
    assert!(with_url.contains(">Added \"cat\"</h2>"));
    assert!(with_url.contains("value=\"https://h/cat.png\" id=\"result-url\""));
    let err = error_block("Nope again");
    assert!(err.contains("<p class=\"text-xs text-mocha-red/80\">Nope again</p>"));
    assert!(err.contains(">Nope</h2>"));
}

#[test]
fn partial_requests() {
    assert!(is_partial_request(Some("fetch")));
    assert!(!is_partial_request(Some("XMLHttpRequest")));
    assert!(!is_partial_request(None));
}

#[test]
fn page_template_filling() {
    let template = "<html data-key=\"__KEY__\">__CONTENT__</html>";
    let page = render_page_or_fragment(false, template, "k1", "<g/>", "<m/>");
    let expected = template.replace("__KEY__", "k1").replace("__CONTENT__", &dashboard_fragment("<g/>", "<m/>"));
    assert_eq!(page, expected);
    assert_eq!(render_page_or_fragment(true, template, "k1", "<g/>", "<m/>"), dashboard_fragment("<g/>", "<m/>"));
}

#[test]
fn gallery_listing_order_and_filters() {
    let names: Vec<String> = ["zeta", "alpha", "gone", "new", "beta"].iter().map(|s| s.to_string()).collect();
    let listed = gallery_names(&names, Some("new"), Some("gone"));
    assert_eq!(listed, vec!["alpha".to_string(), "beta".to_string(), "zeta".to_string()]);
    let all = gallery_names(&names, None, None);
    assert_eq!(all.len(), 5);
    assert_eq!(all[0], "alpha");
}

#[test]
fn gallery_rendering() {
    let entries = vec![
        ("a".to_string(), Some("image/png".to_string())),
        ("b".to_string(), None),
        ("c".to_string(), Some("video/mp4".to_string())),
    ];
    let html = render_gallery(Some(("new", "image/gif")), &entries);
    let expected = format!(
        "{}{}{}{}",
        expected_tile("new", false, ".gif"),
        expected_tile("a", false, ".png"),
        expected_tile("b", false, ""),
        expected_tile("c", true, ".mp4")
    );
    assert_eq!(html, expected);
    assert_eq!(render_gallery(None, &Vec::new()), "");
}
