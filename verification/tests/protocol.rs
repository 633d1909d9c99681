use co_review::protocol::{
    render_prompt, DEFAULT_PROMPT, PROTOCOL_MD, PROTOCOL_PLACEHOLDER, PR_PLACEHOLDER,
};

#[test]
fn render_substitutes_placeholders() {
    let out = render_prompt(DEFAULT_PROMPT, "#123", "/tmp/s/CO_REVIEW.md");
    assert!(out.contains("#123"));
    assert!(out.contains("/tmp/s/CO_REVIEW.md"));
    assert!(!out.contains(PR_PLACEHOLDER));
    assert!(!out.contains(PROTOCOL_PLACEHOLDER));
}

#[test]
fn protocol_mentions_key_commands() {
    for cmd in ["add-finding", "set-status", "wait", "mark-posted", "import"] {
        assert!(PROTOCOL_MD.contains(cmd), "protocol should mention {cmd}");
    }
}

#[test]
fn render_replaces_every_placeholder() {
    assert_eq!(render_prompt("{pr} and {pr} in {protocol}", "#5", "/p.md"), "#5 and #5 in /p.md");
    assert_eq!(render_prompt("no placeholders", "#5", "/p.md"), "no placeholders");
}
