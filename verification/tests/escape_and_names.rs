use open_hypergraphs_dot::escape_dot_label;
use open_hypergraphs_dot::names::{decimal_str, edge_name_str, node_name_str};

#[test]
fn escape_passes_plain_text_through() {
    assert_eq!(escape_dot_label("hello world"), "hello world");
    assert_eq!(escape_dot_label(""), "");
    assert_eq!(escape_dot_label("NodeType::A"), "NodeType::A");
}

#[test]
fn escape_backslash_doubles() {
    assert_eq!(escape_dot_label("a\\b"), "a\\\\b");
}

#[test]
fn escape_covers_every_structural_character() {
    assert_eq!(escape_dot_label("{x}|<y>\""), "\\{x\\}\\|\\<y\\>\\\"");
}

#[test]
fn escape_mixed_label() {
    assert_eq!(escape_dot_label("f: A -> B|C"), "f: A -\\> B\\|C");
}

#[test]
fn decimal_renders_without_leading_zeros() {
    assert_eq!(decimal_str(0), "0");
    assert_eq!(decimal_str(7), "7");
    assert_eq!(decimal_str(10), "10");
    assert_eq!(decimal_str(12345), "12345");
}

#[test]
fn vertex_names_carry_prefix_and_index() {
    assert_eq!(node_name_str(0), "n_0");
    assert_eq!(node_name_str(10), "n_10");
    assert_eq!(edge_name_str(3), "e_3");
}

#[test]
fn vertex_names_differ_between_indices_and_families() {
    let names: Vec<String> = (0..25).map(node_name_str).collect();
    for i in 0..names.len() {
        for j in 0..names.len() {
            if i != j {
                assert_ne!(names[i], names[j]);
            }
        }
        assert_ne!(names[i], edge_name_str(i));
    }
}
