use github_pr_context::prompt_utils::{
    assemble, assembled_len, build_slash_command_output, PromptPart, Section,
};

fn part(label: &str, content: &str) -> PromptPart {
    PromptPart::new(label.to_string(), content.to_string())
}

#[test]
fn two_fragments_with_blank_line() {
    let comment = "```diff\nfoo\n```\n\nnice";
    let parts = vec![part("PR #1: Title", "desc"), part("Comment by @bob", comment)];
    let (text, sections) = build_slash_command_output(parts);
    assert_eq!(text, "desc\n\n```diff\nfoo\n```\n\nnice");
    assert_eq!(
        sections,
        vec![
            Section { label: "PR #1: Title".to_string(), start: 0, end: 4 },
            Section { label: "Comment by @bob".to_string(), start: 6, end: 6 + comment.len() },
        ]
    );
}

#[test]
fn no_fragments_give_empty_document() {
    let (text, sections) = assemble(&vec![], "\n\n");
    assert_eq!(text, "");
    assert!(sections.is_empty());
    assert_eq!(assembled_len(&vec![], "--"), Some(0));
}

#[test]
fn one_fragment_has_no_separator() {
    let (text, sections) = assemble(&vec![part("only", "abc")], "\n\n");
    assert_eq!(text, "abc");
    assert_eq!(sections, vec![Section { label: "only".to_string(), start: 0, end: 3 }]);
}

#[test]
fn sections_follow_lengths_and_separator() {
    let parts = vec![part("a", "x"), part("b", ""), part("c", "hello"), part("d", "zz")];
    let sep = "<->";
    let (text, sections) = assemble(&parts, sep);
    assert_eq!(text, "x<-><->hello<->zz");
    for (i, s) in sections.iter().enumerate() {
        assert_eq!(s.end - s.start, parts[i].content.len());
        if i + 1 < sections.len() {
            assert_eq!(sections[i + 1].start, s.end + sep.len());
        }
    }
    assert_eq!(assembled_len(&parts, sep), Some(text.len()));
}

#[test]
fn slicing_gives_back_each_content() {
    let parts = vec![part("é", "naïve ✓"), part("", ""), part("z", "日本語"), part("q", "end")];
    for sep in ["\n\n", "", "—"] {
        let (text, sections) = assemble(&parts, sep);
        for (i, s) in sections.iter().enumerate() {
            assert_eq!(&text.as_bytes()[s.start..s.end], parts[i].content.as_bytes());
            assert_eq!(s.label, parts[i].label);
        }
    }
}

#[test]
fn offsets_count_bytes() {
    let parts = vec![part("a", "é"), part("b", "x")];
    let (_, sections) = build_slash_command_output(parts);
    assert_eq!(sections[0].end, 2);
    assert_eq!(sections[1].start, 4);
    assert_eq!(sections[1].end, 5);
}

#[test]
fn assembling_twice_gives_the_same() {
    let parts = vec![part("PR #3: T", "body"), part("Comment by @x", "c1"), part("y", "c2")];
    let first = assemble(&parts, "\n\n");
    let second = assemble(&parts, "\n\n");
    assert_eq!(first, second);
}

#[test]
fn fragment_length_is_filled_in() {
    let p = part("l", "ab✓");
    assert_eq!(p.length, 5);
}
