use crowbook::book::{Book, Cleaner};
use crowbook::directive::{parse_directive, DirectiveError, Number};
use crowbook::error::ErrorKind;
use crowbook::templates::{compile_str, number_text, Builtin, TemplateSource};
use crowbook::token::Token;

fn load(book: &mut Book, source: &str) -> Result<Vec<(Number, String)>, crowbook::error::Error> {
    match book.read_config(source)? {
        (ds, None) => Ok(ds),
        (_, Some(e)) => Err(e),
    }
}

fn chars(s: &str) -> Vec<char> {
    s.chars().collect()
}

fn directive(s: &str) -> Result<(Number, String), DirectiveError> {
    parse_directive(&chars(s)).map(|(n, f)| (n, f.into_iter().collect()))
}

#[test]
fn directive_markers() {
    assert_eq!(directive("-a.md"), Ok((Number::Unnumbered, "a.md".to_string())));
    assert_eq!(directive("+a.md"), Ok((Number::Default, "a.md".to_string())));
    assert_eq!(directive("!a.md"), Ok((Number::Hidden, "a.md".to_string())));
    assert_eq!(directive("3. a.md"), Ok((Number::Specified(3), "a.md".to_string())));
    assert_eq!(directive("12:b.md"), Ok((Number::Specified(12), "b.md".to_string())));
    assert_eq!(directive("7+c.md"), Ok((Number::Specified(7), "c.md".to_string())));
}

#[test]
fn directive_errors() {
    assert_eq!(directive("3 a.md"), Err(DirectiveError::BadNumber));
    assert_eq!(directive("3 amd"), Err(DirectiveError::IllFormatted));
    assert_eq!(directive("+a b.md"), Err(DirectiveError::Whitespace));
    assert_eq!(directive("+"), Err(DirectiveError::NoName));
    assert_eq!(directive("3.  "), Err(DirectiveError::NoName));
    assert_eq!(directive("99999999999. a.md"), Err(DirectiveError::BadNumber));
    assert_eq!(directive("3x. a.md"), Err(DirectiveError::BadNumber));
    assert_eq!(directive("x.md"), Err(DirectiveError::Invalid));
}

#[test]
fn directive_without_delimiter_fails_the_load() {
    let mut book = Book::new();
    let r = load(&mut book, "title: X\n\n3 a.md");
    assert_eq!(r.unwrap_err().kind, ErrorKind::ConfigParser);
}

#[test]
fn front_matter_then_one_chapter() {
    let mut book = Book::new();
    let ds = load(&mut book, "title: X\nauthor: Y\n\n+ch1.md").unwrap();
    assert_eq!(book.options().get_str("title"), Some("X".to_string()));
    assert_eq!(book.options().get_str("author"), Some("Y".to_string()));
    assert_eq!(ds, vec![(Number::Default, "ch1.md".to_string())]);
    book.add_chapter(ds[0].0, &ds[0].1, &vec![Token::Text("Hello".to_string())]);
    assert_eq!(book.len(), 1);
    assert_eq!(book.chapter_number(0), Number::Default);
    assert_eq!(book.filename(0), "ch1.md");
}

#[test]
fn chapter_list_in_order_with_comments() {
    let mut book = Book::new();
    let ds = load(&mut book, "title: T\n\n! intro.md\n# a comment\n\n- pre.md\n2. two.md\n+ three.md\n")
        .unwrap();
    assert_eq!(
        ds,
        vec![
            (Number::Hidden, "intro.md".to_string()),
            (Number::Unnumbered, "pre.md".to_string()),
            (Number::Specified(2), "two.md".to_string()),
            (Number::Default, "three.md".to_string()),
        ]
    );
}

#[test]
fn multi_line_value_is_one_document() {
    let mut book = Book::new();
    let ds = load(&mut book, "title:\n  My Book\nauthor: Y\n\n+a.md").unwrap();
    assert_eq!(book.options().get_str("title"), Some("My Book".to_string()));
    assert_eq!(book.options().get_str("author"), Some("Y".to_string()));
    assert_eq!(ds.len(), 1);
}

#[test]
fn folded_value_is_one_document() {
    let mut book = Book::new();
    load(&mut book, "description: >\n  one\n  two\ntitle: T\n\n+a.md").unwrap();
    assert_eq!(book.options().get_str("description"), Some("one two\n".to_string()));
    assert_eq!(book.options().get_str("title"), Some("T".to_string()));
}

#[test]
fn unknown_key_aborts_the_load() {
    let mut book = Book::new();
    let r = load(&mut book, "title: X\nfoo: bar\n\n+a.md");
    assert_eq!(r.unwrap_err().kind, ErrorKind::BookOption);
    assert_eq!(book.len(), 0);
    let mut other = Book::new();
    let r = load(&mut other, "foo: bar\ntitle: X\n\n+a.md");
    assert_eq!(r.unwrap_err().kind, ErrorKind::BookOption);
    assert_eq!(other.len(), 0);
}

#[test]
fn wrong_type_aborts_the_load() {
    let mut book = Book::new();
    let r = load(&mut book, "title: X\ninput.clean: maybe\n\n+a.md");
    assert_eq!(r.unwrap_err().kind, ErrorKind::BookOption);
}

#[test]
fn config_without_front_matter() {
    let mut book = Book::new();
    let ds = load(&mut book, "+a.md\n-b.md").unwrap();
    assert_eq!(ds.len(), 2);
    assert_eq!(book.options().get_str("title"), Some("Untitled".to_string()));
}

#[test]
fn embedded_block_sets_options_when_enabled() {
    let mut book = Book::new();
    assert_eq!(book.set_options(&[("input.yaml_blocks", "true")]), 0);
    let content = book.strip_front_matter("---\nauthor: Z\n---\n\n# Title");
    assert_eq!(book.options().get_str("author"), Some("Z".to_string()));
    assert_eq!(content, "\n# Title\n");
}

#[test]
fn embedded_block_kept_when_disabled() {
    let mut book = Book::new();
    let content = book.strip_front_matter("---\nauthor: Z\n---\n\n# Title");
    assert_eq!(book.options().get_str("author"), Some("Anonymous".to_string()));
    assert!(content.contains("---\nauthor: Z\n---\n"));
    assert!(content.contains("# Title"));
}

#[test]
fn embedded_block_that_is_not_yaml_is_kept() {
    let mut book = Book::new();
    book.set_options(&[("input.yaml_blocks", "true")]);
    let content = book.strip_front_matter("Text\n\n---\n: : [\n...\nmore");
    assert_eq!(content, "Text\n\n---\n: : [\n...\nmore\n");
}

#[test]
fn rule_after_text_is_not_a_block() {
    let mut book = Book::new();
    book.set_options(&[("input.yaml_blocks", "true")]);
    let content = book.strip_front_matter("Text\n---\nauthor: Z\n---\n");
    assert_eq!(book.options().get_str("author"), Some("Anonymous".to_string()));
    assert_eq!(content, "Text\n---\nauthor: Z\n---\n");
}

#[test]
fn links_rewritten_to_chapter_directory() {
    let mut book = Book::new();
    let tokens = vec![
        Token::Image("img.png".to_string(), String::new()),
        Token::Link("other.md".to_string(), "x".to_string()),
        Token::Link("http://example.com/a".to_string(), "y".to_string()),
        Token::Link("#anchor".to_string(), "z".to_string()),
    ];
    book.add_chapter(Number::Default, "sub/dir/ch.md", &tokens);
    let t = book.chapter_tokens(0);
    assert!(matches!(&t[0], Token::Image(u, _) if u == "sub/dir/img.png"));
    assert!(matches!(&t[1], Token::Link(u, _) if u == "sub/dir/other.md"));
    assert!(matches!(&t[2], Token::Link(u, _) if u == "http://example.com/a"));
    assert!(matches!(&t[3], Token::Link(u, _) if u == "#anchor"));
}

#[test]
fn base_path_overrides_chapter_directory() {
    let mut book = Book::new();
    assert_eq!(book.set_options(&[("resources.base_path", "assets")]), 0);
    let tokens = vec![Token::Image("img.png".to_string(), String::new())];
    book.add_chapter(Number::Default, "sub/dir/ch.md", &tokens);
    book.add_chapter(Number::Default, "ch.md", &tokens);
    for i in 0..2 {
        let t = book.chapter_tokens(i);
        assert!(matches!(&t[0], Token::Image(u, _) if u == "assets/img.png"));
    }
}

#[test]
fn separate_base_paths() {
    let mut book = Book::new();
    book.set_options(&[("resources.base_path.images", "pics"), ("resources.base_path.links", "docs/")]);
    let tokens = vec![
        Token::Image("a.png".to_string(), String::new()),
        Token::Link("b.md".to_string(), String::new()),
    ];
    book.add_chapter(Number::Default, "sub/ch.md", &tokens);
    let t = book.chapter_tokens(0);
    assert!(matches!(&t[0], Token::Image(u, _) if u == "pics/a.png"));
    assert!(matches!(&t[1], Token::Link(u, _) if u == "docs/b.md"));
}

#[test]
fn chapter_above_book_warns() {
    let mut book = Book::new();
    book.add_chapter(Number::Default, "../x/ch.md", &vec![]);
    assert_eq!(book.warnings().len(), 1);
}

#[test]
fn chapter_from_source_has_empty_filename() {
    let mut book = Book::new();
    book.add_chapter_from_source(Number::Hidden, vec![Token::Image("a.png".to_string(), String::new())]);
    assert_eq!(book.len(), 1);
    assert_eq!(book.filename(0), "");
    let t = book.chapter_tokens(0);
    assert!(matches!(&t[0], Token::Image(u, _) if u == "a.png"));
}

#[test]
fn registering_a_format_again_replaces_it() {
    let mut book = Book::new();
    assert_eq!(book.format_description("html"), Some("HTML (standalone page)".to_string()));
    book.add_format("html", "My HTML");
    assert_eq!(book.format_description("html"), Some("My HTML".to_string()));
    book.add_format("foo", "Foo");
    assert_eq!(book.format_description("foo"), Some("Foo".to_string()));
    assert_eq!(book.format_description("bar"), None);
}

#[test]
fn nothing_to_render_without_outputs() {
    let book = Book::new();
    assert!(book.render_plan().is_empty());
}

#[test]
fn render_plan_follows_outputs() {
    let mut book = Book::new();
    book.set_options(&[
        ("output.html", "book.html"),
        ("output.pdf", "book.pdf"),
        ("output.proofread.html", "proof.html"),
    ]);
    assert_eq!(book.render_plan(), vec!["pdf".to_string(), "html".to_string()]);
    book.set_options(&[("proofread", "true")]);
    assert_eq!(
        book.render_plan(),
        vec!["pdf".to_string(), "html".to_string(), "proofread.html".to_string()]
    );
    assert_eq!(book.output_path("html"), Some("book.html".to_string()));
    assert_eq!(book.output_path("epub"), None);
}

#[test]
fn loading_twice_gives_the_same_book() {
    let config = "title: T\nauthor: A\nlang: fr\n\n+a.md\n- b.md\n";
    let mut b1 = Book::new();
    let mut b2 = Book::new();
    let d1 = load(&mut b1, config).unwrap();
    let d2 = load(&mut b2, config).unwrap();
    assert_eq!(d1, d2);
    for k in ["title", "author", "lang", "subject"] {
        assert_eq!(b1.options().get_str(k), b2.options().get_str(k));
    }
    assert_eq!(b1.cleaner(), b2.cleaner());
}

#[test]
fn set_options_reports_refused() {
    let mut book = Book::new();
    let refused = book.set_options(&[("author", "Foo"), ("nope", "x"), ("input.clean", "3")]);
    assert_eq!(refused, 2);
    assert_eq!(book.options().get_str("author"), Some("Foo".to_string()));
    assert_eq!(book.options().get_bool("input.clean"), Some(true));
}

#[test]
fn option_defaults_and_types() {
    let mut book = Book::new();
    assert_eq!(book.options().get_int("epub.version"), Some(2));
    assert_eq!(book.options().get_str("epub.version"), None);
    book.set_options(&[("epub.version", "3")]);
    assert_eq!(book.options().get_int("epub.version"), Some(3));
}

#[test]
fn cleaner_follows_language() {
    let mut book = Book::new();
    assert_eq!(book.cleaner(), Cleaner::Off);
    book.set_options(&[("author", "A")]);
    assert!(matches!(book.cleaner(), Cleaner::Default(p) if p.smart_quotes));
    book.set_options(&[("lang", "FR-ca")]);
    assert!(matches!(book.cleaner(), Cleaner::French(_)));
    book.set_options(&[("input.clean", "false")]);
    assert_eq!(book.cleaner(), Cleaner::Off);
}

#[test]
fn proofreading_hook_needs_proofread_output() {
    let mut book = Book::new();
    book.set_options(&[("proofread", "true"), ("proofread.languagetool", "true")]);
    assert!(!book.is_proofread());
    assert_eq!(book.checker(), None);
    book.set_options(&[("output.proofread.pdf", "p.pdf")]);
    assert!(book.is_proofread());
    assert_eq!(book.checker(), Some((8081, "en".to_string())));
}

#[test]
fn templates_resolve() {
    let mut book = Book::new();
    assert!(matches!(book.get_template("epub.chapter.xhtml"), Ok(TemplateSource::Builtin(Builtin::EpubChapter))));
    book.set_options(&[("epub.version", "3"), ("html.css", "my.css")]);
    assert!(matches!(book.get_template("epub.chapter.xhtml"), Ok(TemplateSource::Builtin(Builtin::Epub3Chapter))));
    assert!(matches!(book.get_template("html.css"), Ok(TemplateSource::File(p)) if p == "my.css"));
    assert_eq!(book.get_template("nope").unwrap_err().kind, ErrorKind::ConfigParser);
}

fn ident(s: &str) -> Result<String, crowbook::error::Error> {
    Ok(s.to_string())
}

#[test]
fn chapter_header_renders() {
    let mut book = Book::new();
    book.set_chapter_template().unwrap();
    assert_eq!(book.get_chapter_header(3, "Intro", &vec![], ident).unwrap(), "3. Intro");
    assert_eq!(book.get_chapter_header(-12, "", &vec![], ident).unwrap(), "-12. ");
}

#[test]
fn chapter_header_without_kept_template() {
    let mut book = Book::new();
    assert_eq!(book.set_options(&[("rendering.chapter_template", "'{{number}}: {{chapter_title}}'")]), 0);
    assert_eq!(book.get_chapter_header(3, "Intro", &vec![], ident).unwrap(), "3: Intro");
}

#[test]
fn chapter_header_goes_through_post_processing() {
    let mut book = Book::new();
    book.set_chapter_template().unwrap();
    let r = book.get_chapter_header(2, "T", &vec![], |s: &str| Ok(format!("<{}>", s)));
    assert_eq!(r.unwrap(), "<2. T>");
    let r = book.get_chapter_header(2, "T", &vec![], |_: &str| {
        Err(crowbook::error::Error::new(ErrorKind::Render, None, "no"))
    });
    assert_eq!(r.unwrap_err().msg, "no");
}

#[test]
fn chapter_header_flag_in_plain_tag() {
    let mut book = Book::new();
    book.set_options(&[("rendering.chapter_template", "'{{has_chapter_title}}|{{#has_chapter_title}}yes{{/has_chapter_title}}{{^has_chapter_title}}no{{/has_chapter_title}}'")]);
    book.set_chapter_template().unwrap();
    assert_eq!(book.get_chapter_header(1, "T", &vec![], ident).unwrap(), "true|yes");
    assert_eq!(book.get_chapter_header(1, "", &vec![], ident).unwrap(), "|no");
}

#[test]
fn chapter_header_with_metadata() {
    let mut book = Book::new();
    book.set_options(&[(
        "rendering.chapter_template",
        "'{{{author}}}{{#has_author}}!{{/has_author}} {{{number}}} {{loc_chapter}}{{#lang_en}} en{{/lang_en}}'",
    )]);
    book.set_chapter_template().unwrap();
    let table = vec![("chapter".to_string(), "Chapter".to_string())];
    let meta = book.get_metadata(&table, |s: &str| Ok(s.to_uppercase())).unwrap();
    assert_eq!(meta[0], ("author".to_string(), "ANONYMOUS".to_string()));
    assert_eq!(meta[1], ("has_author".to_string(), "true".to_string()));
    assert!(meta.contains(&("loc_chapter".to_string(), "Chapter".to_string())));
    assert!(meta.contains(&("lang_en".to_string(), "true".to_string())));
    assert_eq!(book.get_chapter_header(7, "T", &meta, ident).unwrap(), "ANONYMOUS! 7 Chapter en");
}

#[test]
fn metadata_render_failure() {
    let book = Book::new();
    let r = book.get_metadata(&vec![], |_: &str| Err(crowbook::error::Error::new(ErrorKind::Default, None, "x")));
    assert_eq!(r.unwrap_err().kind, ErrorKind::Render);
}

#[test]
fn bad_chapter_template() {
    let mut book = Book::new();
    assert_eq!(book.set_options(&[("rendering.chapter_template", "'{{#a}}'")]), 0);
    assert_eq!(book.get_chapter_header(1, "", &vec![], ident).unwrap_err().kind, ErrorKind::Template);
    assert_eq!(book.set_chapter_template().unwrap_err().kind, ErrorKind::Template);
    assert!(compile_str("{{x}}", "m").is_ok());
    let e = compile_str("{{#a}}", "m").err().unwrap();
    assert_eq!(e.kind, ErrorKind::Template);
    assert_eq!(e.msg, "m");
}

#[test]
fn templates_needing_more_than_their_text_are_refused() {
    assert!(compile_str("{{> part}}", "m").is_err());
    assert!(compile_str("{{ . }}", "m").is_err());
    assert!(compile_str("{{=<% %>=}}", "m").is_err());
    assert!(compile_str("{{#a}}{{b.c}}{{/a}}", "m").is_ok());
}

#[test]
fn directive_error_carries_its_line() {
    let mut book = Book::new();
    let err = load(&mut book, "title: X\n\n+a.md\nfoo.md\n").unwrap_err();
    assert_eq!(err.kind, ErrorKind::ConfigParser);
    assert_eq!(err.line, Some(4));
}

#[test]
fn chapters_and_filenames_stay_paired() {
    let mut book = Book::new();
    let ds = load(&mut book, "title: X\n\n+a.md\n-b.md\n").unwrap();
    for (n, f) in &ds {
        book.add_chapter(*n, f, &vec![]);
    }
    book.add_chapter_from_source(Number::Default, vec![]);
    assert_eq!(book.len(), 3);
    assert_eq!(book.filename(0), "a.md");
    assert_eq!(book.filename(1), "b.md");
    assert_eq!(book.filename(2), "");
}

#[test]
fn numbers_in_decimal() {
    assert_eq!(number_text(0), "0");
    assert_eq!(number_text(1200), "1200");
    assert_eq!(number_text(-7), "-7");
    assert_eq!(number_text(i32::MIN), "-2147483648");
    assert_eq!(number_text(i32::MAX), "2147483647");
}

#[test]
fn directives_before_a_bad_line_are_kept() {
    let mut book = Book::new();
    let (ds, err) = book.read_config("title: X\n\n+a.md\nfoo.md\n+b.md\n").unwrap();
    assert_eq!(ds, vec![(Number::Default, "a.md".to_string())]);
    let err = err.unwrap();
    assert_eq!(err.kind, ErrorKind::ConfigParser);
    assert_eq!(err.line, Some(4));
}

#[test]
fn embedded_block_switches_cleaner_to_french() {
    let mut book = Book::new();
    book.set_options(&[("input.yaml_blocks", "true")]);
    book.strip_front_matter("---\nlang: fr\ninput.clean: true\n---\n\n# T");
    assert_eq!(book.options().get_str("lang"), Some("fr".to_string()));
    assert!(matches!(book.cleaner(), Cleaner::French(_)));
}

#[test]
fn metadata_error_names_the_key() {
    let book = Book::new();
    let r = book.get_metadata(&vec![], |_: &str| Err(crowbook::error::Error::new(ErrorKind::Default, None, "boom")));
    let e = r.unwrap_err();
    assert_eq!(e.kind, ErrorKind::Render);
    assert_eq!(e.msg, "could not render `author` for metadata: boom");
}

#[test]
fn dotted_directory_is_not_above_root() {
    let mut book = Book::new();
    book.add_chapter(Number::Default, "..x/ch.md", &vec![]);
    assert!(book.warnings().is_empty());
    book.add_chapter(Number::Default, "../ch.md", &vec![]);
    assert_eq!(book.warnings(), vec!["a chapter lies in a directory above the book file".to_string()]);
}

#[test]
fn unknown_render_target() {
    let book = Book::new();
    assert_eq!(book.render_target("epub").unwrap(), "EPUB");
    assert_eq!(book.render_target("nope").unwrap_err().kind, ErrorKind::Default);
}
