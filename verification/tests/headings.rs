//! Tests of the line-based heading renderer.

use wikirender::headings::render;

#[test]
fn test_render_headings() {
    assert_eq!(render("nothing"), "nothing");
    assert_eq!(render("=a="), "<h1>a</h1>");
    assert_eq!(render("==a=="), "<h2>a</h2>");
    assert_eq!(render("===a==="), "<h3>a</h3>");
    assert_eq!(render("====a===="), "<h4>a</h4>");
    assert_eq!(render("=====a====="), "<h5>a</h5>");
    assert_eq!(render("======a======"), "<h6>a</h6>");
    assert_eq!(render("===a===\n====b===="), "<h3>a</h3>\n<h4>b</h4>");
    assert_eq!(render("== a =="), "<h2>a</h2>");
    assert_eq!(render("== a == "), "<h2>a</h2>");
    assert_eq!(render(" ==a=="), " ==a==");
    assert_eq!(render("==a==="), "<h2>a=</h2>");
    assert_eq!(render("x\n===ab===\na"), "x\n<h3>ab</h3>\na");
    assert_eq!(render("==x<b>a</b>x=="), "<h2>x<b>a</b>x</h2>");
}
