use vesta::{assert_exhaustive, Case, CaseExt, Match};

#[test]
fn option_tags() {
    assert_eq!(None::<bool>.tag(), Some(0));
    assert_eq!(Some(true).tag(), Some(1));
}

#[test]
fn result_tags() {
    assert_eq!(Ok::<i32, &str>(5).tag(), Some(0));
    assert_eq!(Err::<i32, &str>("no").tag(), Some(1));
}

#[test]
fn option_case_extracts() {
    let option = Some("hello");
    assert_eq!(option.tag(), Some(1));
    let string = option.case::<1>();
    assert_eq!(string, "hello");
}

#[test]
fn option_try_case() {
    let result = Some("hello").try_case::<1>();
    assert_eq!(result, Ok("hello"));
    let result = Some("hello").try_case::<0>();
    assert_eq!(result, Err(Some("hello")));
    let unit = None::<&str>.try_case::<0>();
    assert_eq!(unit, Ok(()));
}

#[test]
fn option_uncase() {
    let option: Option<_> = "hello".uncase::<_, 1>();
    assert_eq!(option, Some("hello"));
    let none: Option<&str> = ().uncase::<_, 0>();
    assert_eq!(none, None);
}

#[test]
fn option_round_trip() {
    // Reconstruction after extraction yields the original value, for each
    // declared case.
    let v = Some(42);
    let payload = v.case::<1>();
    let back: Option<i32> = payload.uncase::<_, 1>();
    assert_eq!(back, Some(42));

    let v: Option<i32> = None;
    let payload = v.case::<0>();
    let back: Option<i32> = payload.uncase::<_, 0>();
    assert_eq!(back, None);
}

#[test]
fn result_round_trip() {
    let v: Result<i32, &str> = Ok(42);
    let payload = <Result<i32, &str> as Case<0>>::case(v);
    assert_eq!(<Result<i32, &str> as Case<0>>::uncase(payload), Ok(42));

    let v: Result<i32, &str> = Err("boom");
    let payload = <Result<i32, &str> as Case<1>>::case(v);
    assert_eq!(<Result<i32, &str> as Case<1>>::uncase(payload), Err("boom"));
}

#[test]
fn result_try_case_returns_value_unchanged_on_mismatch() {
    let v: Result<i32, &str> = Ok(42);
    assert_eq!(<Result<i32, &str> as Case<1>>::try_case(v), Err(Ok(42)));
    let v: Result<i32, &str> = Err("boom");
    assert_eq!(<Result<i32, &str> as Case<0>>::try_case(v), Err(Err("boom")));
}

#[test]
fn exhaustive_bound_certifies() {
    assert_exhaustive::<_, 2>(&Some(true));
    assert_exhaustive::<_, 2>(&None::<u8>);
    assert_exhaustive::<_, 2>(&Ok::<u8, bool>(1));
}

#[test]
fn try_case_chain_dispatch() {
    // A chain of checked extractions is a total, safe way to dispatch by
    // tag: each failure hands the original value back.
    let v: Result<i32, &str> = Err("boom");
    let outcome = match <Result<i32, &str> as Case<0>>::try_case(v) {
        Ok(n) => format!("ok {}", n),
        Err(v) => match <Result<i32, &str> as Case<1>>::try_case(v) {
            Ok(e) => format!("err {}", e),
            Err(_) => unreachable!("a Result carries tag 0 or 1"),
        },
    };
    assert_eq!(outcome, "err boom");
}
