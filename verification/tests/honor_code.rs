use mini_substrate::a_honor_code::{no_additional_dependencies, wrote_my_own_code};

fn has_honor(f: &dyn Fn() -> bool) {
    assert!(
        f(),
        "Thank you for your honesty in letting us know you have not followed the honor code."
    )
}

#[test]
fn honor_code_respected() {
    has_honor(&wrote_my_own_code);
    has_honor(&no_additional_dependencies);
}
