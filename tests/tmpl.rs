use tera::{Context, Tera};

#[test]
fn render_tera() {
    let mut tmpl = Tera::default();
    tmpl.add_raw_template("hello", "hello {{ name }}").unwrap();

    let mut data = Context::new();
    data.insert("name", "pengda");

    let x = tmpl.render("hello", &data).unwrap();

    println!("{x}");
    assert_eq!(x, "hello pengda");
}
