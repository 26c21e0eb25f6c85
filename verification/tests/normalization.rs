use docsite_to_md::normalize::normalize_markdown;
use docsite_to_md::Framework;

#[test]
fn golden_docusaurus_normalization() {
    let input = ":::note Docusaurus note. :::\nOn this page\n";
    let output = normalize_markdown(input, &Framework::Docusaurus);
    assert_eq!(output, "> [!NOTE]\n> Docusaurus note.\n");
}

#[test]
fn golden_mkdocs_material_normalization() {
    let input = "=== \"Python\"\n\n`pip install`\n";
    let output = normalize_markdown(input, &Framework::MkDocsMaterial);
    assert!(output.contains("### Python"));
}

#[test]
fn golden_vitepress_normalization() {
    let input = ":::tip Helpful advice. :::\nTable of contents\nAre you an LLM? View /llms.txt for optimized Markdown documentation\n";
    let output = normalize_markdown(input, &Framework::VitePress);
    assert!(output.contains("[!TIP]"));
    assert!(!output.contains("Table of contents"));
    assert!(!output.contains("/llms.txt"));
}

#[test]
fn golden_nextra_normalization() {
    let input =
        "((a,b,c,d,e,f,g,h)=>{})\nCopy page\n<Callout type=\"warning\">Be careful.</Callout>\n";
    let output = normalize_markdown(input, &Framework::Nextra);
    assert!(output.contains("[!WARNING]"));
    assert!(!output.contains("Copy page"));
    assert!(!output.contains("((a,b,c,d,e,f,g,h)=>{})"));
}

#[test]
fn strips_anchor_glyph_noise() {
    let input = "Heading[¶](#heading)\n=======\n";
    let output = normalize_markdown(input, &Framework::Docusaurus);
    assert!(!output.contains("[¶](#heading)"));
}

#[test]
fn normalized_markdown_ends_with_single_newline() {
    let output = normalize_markdown("\n\n# Title\n\n\n\n\nBody\n\n\n", &Framework::GenericDocsFallback);
    assert_eq!(output, "# Title\n\nBody\n");
}

#[test]
fn gitbook_hint_becomes_alert() {
    let output = normalize_markdown(
        "{% hint style=\"danger\" %}\nDo not do this.\n{% endhint %}\n",
        &Framework::GitBookModern,
    );
    assert!(output.contains("[!DANGER]"));
    assert!(!output.contains("{% hint"));
}

#[test]
fn mkdocs_table_wrapper_is_removed() {
    let output = normalize_markdown(
        "<div class=\"md-typeset__table\">\n| Name |\n| --- |\n</div>\n",
        &Framework::MkDocsMaterial,
    );
    assert!(output.contains("| Name |"));
    assert!(!output.contains("md-typeset__table"));
}
