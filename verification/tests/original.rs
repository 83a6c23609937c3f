use epilang::compiler::context::CompilerContext;
use epilang::program::run_program;
use epilang::runtime::module::Module;
use epilang::runtime::value::Value;

#[derive(Debug, PartialEq)]
enum Outcome {
    Int(i32),
    Bool(bool),
}

fn eval_program(text: String) -> Result<Outcome, ()> {
    let mut ctx = CompilerContext::new();
    let mut module = Module::new();
    let v = run_program(text, &mut ctx, &mut module, 1000).or(Result::Err(()))?;
    let outcome = match v.as_ref(&module.heap) {
        Value::Int(i) => Outcome::Int(*i),
        Value::Bool(b) => Outcome::Bool(*b),
        _ => return Result::Err(()),
    };
    Result::Ok(outcome)
}

#[test]
fn test1() {
    assert_eq!(eval_program(String::from("2 + 2")), Result::Ok(Outcome::Int(4)));
    assert_eq!(eval_program(String::from("2 - 2")), Result::Ok(Outcome::Int(0)));
    assert_eq!(eval_program(String::from("2 * 2")), Result::Ok(Outcome::Int(4)));
    assert_eq!(eval_program(String::from("2 / 2")), Result::Ok(Outcome::Int(1)));
    assert_eq!(eval_program(String::from("2 + 2 * 3")), Result::Ok(Outcome::Int(8)));
    assert_eq!(eval_program(String::from("2 - 2 * 3")), Result::Ok(Outcome::Int(-4)));
    assert_eq!(eval_program(String::from("2 * 2 + 3 * 3")), Result::Ok(Outcome::Int(13)));
    assert_eq!(eval_program(String::from("2 / 1 + 1")), Result::Ok(Outcome::Int(3)));
}

#[test]
fn test2() {
    assert_eq!(eval_program(String::from("2 < 3")), Result::Ok(Outcome::Bool(true)));
    assert_eq!(eval_program(String::from("2 > 3")), Result::Ok(Outcome::Bool(false)));
    assert_eq!(eval_program(String::from("2 + 2 < 3")), Result::Ok(Outcome::Bool(false)));
    assert_eq!(eval_program(String::from("2 + 2 > 3")), Result::Ok(Outcome::Bool(true)));
    assert_eq!(eval_program(String::from("10 * 10 > 90 + 10 - 1 ")), Result::Ok(Outcome::Bool(true)));
    assert_eq!(eval_program(String::from("10 * 10 < 90 + 10 - 1 ")), Result::Ok(Outcome::Bool(false)));
    assert_eq!(eval_program(String::from("100 / 10 > 3 + 3 ")), Result::Ok(Outcome::Bool(true)));
    assert_eq!(eval_program(String::from("100 / 10 < 3 + 3 ")), Result::Ok(Outcome::Bool(false)));
}

#[test]
fn test3() {
    assert_eq!(eval_program(String::from("true")), Result::Ok(Outcome::Bool(true)));
    assert_eq!(eval_program(String::from("false")), Result::Ok(Outcome::Bool(false)));
    assert_eq!(eval_program(String::from("! true")), Result::Ok(Outcome::Bool(false)));
    assert_eq!(eval_program(String::from("! false")), Result::Ok(Outcome::Bool(true)));
    assert_eq!(eval_program(String::from("true && true")), Result::Ok(Outcome::Bool(true)));
    assert_eq!(eval_program(String::from("true && ! true")), Result::Ok(Outcome::Bool(false)));
    assert_eq!(eval_program(String::from("true || true")), Result::Ok(Outcome::Bool(true)));
    assert_eq!(eval_program(String::from("true || ! true")), Result::Ok(Outcome::Bool(true)));
    assert_eq!(eval_program(String::from("! true || ! true")), Result::Ok(Outcome::Bool(false)));
    assert_eq!(eval_program(String::from("! ! true")), Result::Ok(Outcome::Bool(true)));
    assert_eq!(eval_program(String::from("! ! ! true")), Result::Ok(Outcome::Bool(false)));
    assert_eq!(eval_program(String::from("! ! false")), Result::Ok(Outcome::Bool(false)));
    assert_eq!(eval_program(String::from("! ! ! false")), Result::Ok(Outcome::Bool(true)));
}

#[test]
fn test4() {
    assert_eq!(eval_program(String::from("true == true")), Result::Ok(Outcome::Bool(true)));
    assert_eq!(eval_program(String::from("true == false")), Result::Ok(Outcome::Bool(false)));
    assert_eq!(eval_program(String::from("1 == 1")), Result::Ok(Outcome::Bool(true)));
    assert_eq!(eval_program(String::from("1 == 2")), Result::Ok(Outcome::Bool(false)));
    assert_eq!(eval_program(String::from("2 * 2 == 2 + 2 / 2 + 1")), Result::Ok(Outcome::Bool(true)));
}

#[test]
fn test5() {
    assert_eq!(eval_program(String::from("true != true")), Result::Ok(Outcome::Bool(false)));
    assert_eq!(eval_program(String::from("true != false")), Result::Ok(Outcome::Bool(true)));
    assert_eq!(eval_program(String::from("1 != 1")), Result::Ok(Outcome::Bool(false)));
    assert_eq!(eval_program(String::from("1 != 2")), Result::Ok(Outcome::Bool(true)));
    assert_eq!(eval_program(String::from("2 * 2 != 2 + 2 / 2 + 1")), Result::Ok(Outcome::Bool(false)));
    assert_eq!(eval_program(String::from("! 3 == 3")), Result::Ok(Outcome::Bool(false)));
    assert_eq!(eval_program(String::from("( ! 3 == 3 ) == ( 3 != 3 )")), Result::Ok(Outcome::Bool(true)));
    assert_eq!(eval_program(String::from("( ! 3 != 3 ) == ( 3 == 3 )")), Result::Ok(Outcome::Bool(true)));
}

#[test]
fn test6() {
    assert_eq!(
        eval_program(String::from("let x = 0 ; let y = 0 ; if (x == 0) { y = 1 } else { y = 2 } ; y")),
        Result::Ok(Outcome::Int(1))
    );
    assert_eq!(
        eval_program(String::from("let x = 1 ; let y = 0 ; if (x == 0) { y = 1 } else { y = 2 } ; y")),
        Result::Ok(Outcome::Int(2))
    );
    let text1 = String::from(
        "
            let x = 0 ;
            let y = 0 ;
            if (x == 0) {
                if (y == 0) {
                    0
                }
                else {
                    1
                }
            }
            else {
                2
            }",
    );
    assert_eq!(eval_program(text1), Result::Ok(Outcome::Int(0)));

    let text2 = String::from(
        "
            let x = 0 ;
            let y = 1 ;
            if (x == 0) {
                if (y == 0) {
                    0
                }
                else {
                    1
                }
            }
            else {
                2
            }",
    );
    assert_eq!(eval_program(text2), Result::Ok(Outcome::Int(1)));

    let text3 = String::from(
        "
            let x = 1 ;
            let y = 0 ;
            if (x == 0) {
                if (y == 0) {
                    0
                }
                else {
                    1
                }
            }
            else {
                2
            }",
    );
    assert_eq!(eval_program(text3), Result::Ok(Outcome::Int(2)));
}
