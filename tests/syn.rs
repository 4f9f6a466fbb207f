#[derive(Debug)]
enum TM {
    T1,
    T2,
    T3,
}

fn print_tm(x: TM) -> &'static str {
    match x {
        x @ (TM::T1 | TM::T2) => {
            println!("t1|t2");

            println!("{:?}", x);
            "t1|t2"
        }
        TM::T3 => {
            println!("t3");
            "t3"
        }
    }
}

#[test]
fn t_match() {
    assert_eq!(print_tm(TM::T2), "t1|t2");
    assert_eq!(print_tm(TM::T1), "t1|t2");
    assert_eq!(print_tm(TM::T3), "t3");
}
