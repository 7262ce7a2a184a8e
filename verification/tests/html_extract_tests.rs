use mdvi::ImageProtocol;
use mdvi::html_img::extract_html_images;

#[test]
fn extractor_reads_src_and_alt() {
    let imgs = extract_html_images("<img src=\"a.png\" alt=\"first\"> text <img src='b.png'>");
    assert_eq!(imgs.len(), 2);
    assert_eq!(imgs[0].src, "a.png");
    assert_eq!(imgs[0].alt, "first");
    assert_eq!(imgs[1].src, "b.png");
    assert_eq!(imgs[1].alt, "");
}

#[test]
fn extractor_is_case_insensitive() {
    let imgs = extract_html_images("<IMG SRC=\"up.png\" ALT=\"Loud\">");
    assert_eq!(imgs.len(), 1);
    assert_eq!(imgs[0].src, "up.png");
    assert_eq!(imgs[0].alt, "Loud");
}

#[test]
fn extractor_ignores_unclosed_and_non_img_tags() {
    assert_eq!(extract_html_images("<imgonly src=\"x.png\">").len(), 0);
    assert_eq!(extract_html_images("<img src=\"x.png\"").len(), 0);
    assert_eq!(extract_html_images("<image src=\"x.png\">").len(), 0);
}

#[test]
fn extractor_drops_tag_whose_first_src_is_empty() {
    let imgs = extract_html_images("<img src=\"\" alt=\"gone\"><img src=\"kept.png\">");
    assert_eq!(imgs.len(), 1);
    assert_eq!(imgs[0].src, "kept.png");
}

#[test]
fn extractor_allows_spaced_assignments() {
    let imgs = extract_html_images("<img src = \"s.png\" alt =  spaced>");
    assert_eq!(imgs.len(), 1);
    assert_eq!(imgs[0].src, "s.png");
    assert_eq!(imgs[0].alt, "spaced");
}

#[test]
fn image_protocol_defaults_to_auto() {
    assert_eq!(ImageProtocol::default(), ImageProtocol::Auto);
    assert_ne!(ImageProtocol::Kitty, ImageProtocol::Sixel);
}
