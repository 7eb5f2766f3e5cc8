use md2paper::extract_front_matter;
use md2paper::frontmatter::split_front_matter;
use md2paper::yaml::front_matter_from_yaml;
use md2paper::{apply_front_matter, to_typst, Config, FrontMatter};

#[test]
fn front_matter_is_split_off() {
    let (body, yaml) = split_front_matter("---\ntitle: T\n---\n# Body\n");
    assert_eq!(body, "# Body\n");
    assert_eq!(yaml.as_deref(), Some("title: T"));
    // One line-break character after the closing line is dropped.
    let (body, yaml) = split_front_matter("---\na: 1\n---\r\nrest");
    assert_eq!(body, "\nrest");
    assert_eq!(yaml.as_deref(), Some("a: 1"));
    let (body, yaml) = split_front_matter("---\na: 1\n---");
    assert_eq!(body, "");
    assert_eq!(yaml.as_deref(), Some("a: 1"));
    let (body, yaml) = split_front_matter("# No front matter\n---\n");
    assert_eq!(body, "# No front matter\n---\n");
    assert!(yaml.is_none());
    let (body, yaml) = split_front_matter("---\nnever closed\n");
    assert_eq!(body, "---\nnever closed\n");
    assert!(yaml.is_none());
}

#[test]
fn yaml_fields_are_read() {
    let fm = front_matter_from_yaml(
        "title: \"Doc\"\nauthor: Me\ndate: 2026-03-19\nfont:\n  body_family: Pretendard\n  body_size: 10.5pt\nspacing:\n  line_height: 1.8\npage:\n  columns: 2\n  paper: letter\nunknown: ignored\n",
    );
    assert_eq!(fm.title.as_deref(), Some("Doc"));
    assert_eq!(fm.author.as_deref(), Some("Me"));
    assert_eq!(fm.date.as_deref(), Some("2026-03-19"));
    let font = fm.font.expect("font section");
    assert_eq!(font.body_family.as_deref(), Some("Pretendard"));
    assert_eq!(font.body_size.as_deref(), Some("10.5pt"));
    assert!(font.code_family.is_none());
    assert_eq!(fm.spacing.expect("spacing").line_height.as_deref(), Some("1.8"));
    let page = fm.page.expect("page");
    assert_eq!(page.columns, Some(2));
    assert_eq!(page.paper.as_deref(), Some("letter"));
}

#[test]
fn misfitting_yaml_sets_nothing() {
    for yaml in [
        "title: [a, b]",
        "font: plain",
        "spacing:\n  line_height: tall",
        "page:\n  columns: 300",
        "- a list",
        "key: [unclosed",
    ] {
        let fm = front_matter_from_yaml(yaml);
        assert!(
            fm.title.is_none() && fm.font.is_none() && fm.spacing.is_none() && fm.page.is_none(),
            "{yaml:?} must set nothing"
        );
    }
}

#[test]
fn extract_front_matter_reads_the_yaml() {
    let (body, fm) = extract_front_matter("---\ntitle: X\n---\nbody");
    assert_eq!(body, "body");
    assert_eq!(fm.title.as_deref(), Some("X"));
    let (body, fm) = extract_front_matter("plain");
    assert_eq!(body, "plain");
    assert!(fm.title.is_none());
}

#[test]
fn builder_options_precede_front_matter_which_precedes_theme() {
    let md = "---\nfont:\n  body_family: FM Serif\n  code_family: FM Mono\ntitle: FM Title\n---\nx";
    let config = Config::builder().font_family("CLI Serif").title("CLI Title").build();
    let typst = to_typst(md, &config).unwrap();
    assert!(typst.contains("font: (\"CLI Serif\""), "{typst}");
    assert!(!typst.contains("FM Serif"));
    assert!(typst.contains("FM Mono"));
    assert!(typst.contains("CLI Title") && !typst.contains("FM Title"));
    let config = Config::builder().build();
    let typst = to_typst(md, &config).unwrap();
    assert!(typst.contains("font: (\"FM Serif\""), "{typst}");
    assert!(typst.contains("FM Title"));
}

#[test]
fn front_matter_applies_once_and_fills_only_missing_metadata() {
    let (_, fm) = extract_front_matter(
        "---\ntitle: FM\nauthor: A\nfont:\n  code_family: Mono\npage:\n  columns: 2\n---\nx",
    );
    let mut config = Config::builder().title("Given").build();
    apply_front_matter(&mut config, &fm);
    assert_eq!(config.title.as_deref(), Some("Given"));
    assert_eq!(config.author.as_deref(), Some("A"));
    assert_eq!(config.theme.font.code_family, "Mono");
    assert_eq!(config.theme.page.columns, 2);
    let once = format!("{:?}", config);
    apply_front_matter(&mut config, &fm);
    assert_eq!(format!("{:?}", config), once);
}

#[test]
fn empty_front_matter_and_toc_depth_default() {
    let mut config = Config::builder().toc(true).build();
    assert_eq!(config.toc_depth, 3);
    let before = format!("{:?}", config);
    apply_front_matter(&mut config, &FrontMatter::new());
    assert_eq!(format!("{:?}", config), before);
    assert_eq!(Config::builder().toc_depth(2).build().toc_depth, 2);
}

#[test]
fn front_matter_theme_selects_a_built_in_theme_below_builder_options() {
    let config = Config::builder().build();
    let typst = to_typst("---\ntheme: newspaper\n---\n\nText", &config).unwrap();
    assert!(typst.contains(", columns: 2"), "{typst}");
    let config = Config::builder().font_family("CLI Serif").build();
    let typst = to_typst("---\ntheme: newspaper\n---\n\nText", &config).unwrap();
    assert!(typst.contains(", columns: 2"));
    assert!(typst.contains("font: (\"CLI Serif\""), "{typst}");
    let config = Config::builder().build();
    let typst = to_typst("---\ntheme: nonesuch\n---\n\nText", &config).unwrap();
    assert!(!typst.contains(", columns: 2"));
}

#[test]
fn a_document_without_front_matter_passes_through() {
    for md in ["# Title\n---\nx", "---\nno closing line", ""] {
        let (body, yaml) = split_front_matter(md);
        assert_eq!(body, md);
        assert!(yaml.is_none());
    }
}
