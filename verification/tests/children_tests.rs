use sauron_core::node::Node;
use sauron_core::svg::{circle, svg, x1, x2, y1, y2};
use sauron_core::svg as tags;

#[test]
fn children() {
    let lines: Vec<Node<()>> =
        (0..5).map(|_| tags::line(vec![x1(100), x2(100), y1(100), y2(200)], vec![])).collect();
    let html = svg(vec![], vec![circle(vec![], vec![])]).add_children(lines);
    let expect = svg(
        vec![],
        vec![
            circle(vec![], vec![]),
            tags::line(vec![x1(100), x2(100), y1(100), y2(200)], vec![]),
            tags::line(vec![x1(100), x2(100), y1(100), y2(200)], vec![]),
            tags::line(vec![x1(100), x2(100), y1(100), y2(200)], vec![]),
            tags::line(vec![x1(100), x2(100), y1(100), y2(200)], vec![]),
            tags::line(vec![x1(100), x2(100), y1(100), y2(200)], vec![]),
        ],
    );
    assert!(html == expect, "Should be the same");
}

#[test]
fn children_using_macro_mix() {
    let lines: Vec<Node<()>> =
        (0..5).map(|_| tags::line(vec![x1(100), x2(100), y1(100), y2(200)], vec![])).collect();
    let html = svg(vec![], vec![circle(vec![], vec![])]).add_children(lines);
    let expect = svg(
        vec![],
        vec![
            circle(vec![], vec![]),
            tags::line(vec![x1(100), x2(100), y1(100), y2(200)], vec![]),
            tags::line(vec![x1(100), x2(100), y1(100), y2(200)], vec![]),
            tags::line(vec![x1(100), x2(100), y1(100), y2(200)], vec![]),
            tags::line(vec![x1(100), x2(100), y1(100), y2(200)], vec![]),
            tags::line(vec![x1(100), x2(100), y1(100), y2(200)], vec![]),
        ],
    );
    assert!(html == expect, "Should be the same");
}
