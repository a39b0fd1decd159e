use chordown::document::split_frontmatter_body;

fn lines(text: &str) -> Vec<&str> {
    text.lines().collect()
}

#[test]
fn delimiters_at_zero_and_five() {
    let text = "+++\ntitle = \"Song\"\nkey = \"C\"\nartist = \"Someone\"\ntempo = 90\n+++\nC G\nHello ^ world";
    assert_eq!(split_frontmatter_body(&lines(text)), (0, 5));
}

#[test]
fn fewer_than_two_delimiters_give_zero_span() {
    assert_eq!(split_frontmatter_body(&lines("C G\nla la")), (0, 0));
    assert_eq!(split_frontmatter_body(&lines("+++\ntitle = \"x\"\nC")), (0, 0));
    assert_eq!(split_frontmatter_body(&lines("")), (0, 0));
}

#[test]
fn first_two_delimiters_count() {
    let text = "intro\n+++\na = 1\n+++\n+++\nbody";
    assert_eq!(split_frontmatter_body(&lines(text)), (1, 3));
}

#[test]
fn delimiter_line_may_carry_whitespace() {
    let text = "  +++\t\na = 1\n+++ \nbody";
    assert_eq!(split_frontmatter_body(&lines(text)), (0, 2));
}

#[test]
fn near_delimiters_do_not_count() {
    let text = "++++\n++\n+ ++\n+++x\n+++";
    assert_eq!(split_frontmatter_body(&lines(text)), (0, 0));
}
