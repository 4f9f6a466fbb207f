#[test]
fn parse_date() {}

#[test]
fn test_format() {
    let x = "fdasfaf_{}.html";
    let s = x.replacen("{}", &10.to_string(), 1);
    println!("{}", s);
    assert_eq!(s, "fdasfaf_10.html");
}
