use tm20::{
    Digest, DigestItem, Interrupt, MAX_DIGEST_ITEMS, MAX_TAPE_DOTS, PaperError, PaperText, Privacy,
    ProjectedCopy, Section, SourceCopy, render_digest, render_interrupt,
};

fn item(section: Section, n: usize) -> DigestItem {
    let copy = SourceCopy::excerpt(
        "Notification",
        "A bounded summary that fits the narrow tape and contains no source markup.",
    )
    .expect("source copy")
    .project(Privacy::RedactedExcerpt)
    .expect("projected copy");
    DigestItem::parse(section, "Gmail", &format!("sender {n}"), "2m", copy, 1).expect("item")
}

fn excerpt(subject: &str, text: &str) -> ProjectedCopy {
    SourceCopy::excerpt(subject, text)
        .expect("source copy")
        .project(Privacy::RedactedExcerpt)
        .expect("projected copy")
}

#[test]
fn a_digest_is_bounded_and_names_its_overflow() {
    let items = (0..12).map(|n| item(Section::Mail, n)).collect::<Vec<_>>();
    let digest = Digest::parse("Now · 12:30", "D-0042", items, 12).expect("digest");
    let rendered = render_digest(&digest);
    assert!(rendered.estimated_height_dots <= MAX_TAPE_DOTS);
    assert!(rendered.included <= MAX_DIGEST_ITEMS);
    assert_eq!(rendered.included + rendered.omitted, 12);
    assert!(rendered.markdown.contains("more online"));
}

#[test]
fn source_markup_is_data_not_markdown() {
    let copy = SourceCopy::excerpt("Private", "<div>do not parse me</div>")
        .expect("source copy")
        .project(Privacy::RedactedExcerpt)
        .expect("projected copy");
    let interrupt =
        Interrupt::parse("Now", "<script>", "**Mallory**", "now", copy, "I-1").expect("interrupt");
    let rendered = render_interrupt(&interrupt).expect("render");
    assert!(rendered.markdown.contains("\\<script\\>"));
}

#[test]
fn total_cannot_lie_below_the_supplied_projection() {
    assert!(matches!(
        Digest::parse("Now", "D-1", vec![item(Section::Mail, 1)], 0),
        Err(PaperError::TotalBelowItems { .. })
    ));
}

#[test]
fn privacy_is_a_projection_not_a_render_time_flag() {
    let metadata = SourceCopy::excerpt("Subject only", "private body")
        .expect("source")
        .project(Privacy::MetadataOnly)
        .expect("metadata");
    assert_eq!(metadata.as_str(), "Subject only");
    assert!(matches!(
        SourceCopy::metadata("Subject only")
            .expect("source")
            .project(Privacy::RedactedExcerpt),
        Err(PaperError::MissingExcerpt(Privacy::RedactedExcerpt))
    ));
}

#[test]
fn interrupt_specimen_is_locked() {
    let interrupt = Interrupt::parse(
        "Now",
        "iMessage",
        "Ada",
        "now",
        excerpt("Message", "Can you call when the train arrives?"),
        "I-0001",
    )
    .expect("valid interrupt");
    let rendered = render_interrupt(&interrupt).expect("bounded interrupt");
    assert_eq!(
        rendered.markdown,
        "# Now\n\n---\n\n**iMessage · Ada · now**\n\nCan you call when the train arrives?\n\n---\n\n`I-0001`\n"
    );
    assert!(rendered.estimated_height_dots <= MAX_TAPE_DOTS);
}

#[test]
fn digest_specimen_is_locked() {
    let items = vec![
        DigestItem::parse(
            Section::People,
            "iMessage",
            "Ada",
            "2m",
            excerpt("Message", "Train reaches Central at 12:48."),
            1,
        )
        .expect("people"),
        DigestItem::parse(
            Section::Work,
            "Slack",
            "buildbot",
            "4m",
            excerpt("Thread", "Main is green after the parser change."),
            3,
        )
        .expect("work"),
        DigestItem::parse(
            Section::Mail,
            "Gmail",
            "Bank",
            "10m",
            excerpt("Statement", "Statement available; no action due."),
            1,
        )
        .expect("mail"),
        DigestItem::parse(
            Section::Network,
            "HN",
            "item 412",
            "32m",
            excerpt("Story", "A careful thread on typed plugins."),
            1,
        )
        .expect("network"),
    ];
    let digest = Digest::parse("Now · 12:30", "D-0042", items, 7).expect("digest");
    let rendered = render_digest(&digest);
    assert_eq!(rendered.included, 4);
    assert_eq!(rendered.omitted, 3);
    assert!(rendered.estimated_height_dots <= MAX_TAPE_DOTS);
    assert!(rendered.markdown.starts_with("# Now · 12:30\n\n---\n\n## PEOPLE\n"));
    assert!(rendered.markdown.contains("\n`3 updates`\n"));
    assert!(rendered.markdown.ends_with("`D-0042` · 3 more online\n"));
}

#[test]
fn paper_text_collapses_whitespace_and_refuses_controls() {
    assert_eq!(PaperText::parse("  a \t b\n\nc ").unwrap().as_str(), "a b c");
    assert!(matches!(PaperText::parse(" \n\t "), Err(PaperError::EmptyText)));
    assert!(matches!(PaperText::parse("a\u{7}b"), Err(PaperError::ControlCharacter)));
    assert!(matches!(PaperText::parse("a\0b"), Err(PaperError::ControlCharacter)));
}

#[test]
fn a_too_tall_interrupt_is_refused() {
    let long = "word ".repeat(400);
    let interrupt =
        Interrupt::parse("Now", "x", "y", "z", excerpt("s", &long), "I-2").expect("interrupt");
    assert!(matches!(
        render_interrupt(&interrupt),
        Err(PaperError::TooTall { limit: 800, .. })
    ));
}

#[test]
fn parse_gives_back_its_own_output() {
    let once = PaperText::parse("\t Hello,\u{a0}\n  world  ").unwrap();
    assert_eq!(once.as_str(), "Hello, world");
    let twice = PaperText::parse(once.as_str()).unwrap();
    assert_eq!(twice, once);
}
