use sorth::error::ScriptError;
use sorth::interpreter::SorthInterpreter;
use sorth::value::Value;
use sorth::words::register_base_words;

fn eval_and_stack(word: &str, init_stack: &[i64]) -> Result<Vec<i64>, ScriptError> {
    let mut interp = SorthInterpreter::new();
    register_base_words(&mut interp).expect("registering the base words should succeed");
    for &v in init_stack {
        interp.push(Value::Int(v));
    }
    interp.run_source("<test>", word)?;
    let stack = interp.stack().iter().map(|v| v.get_int_val()).collect();
    Ok(stack)
}

#[test]
fn zero() {
    let result = eval_and_stack("0", &[]).unwrap();
    assert_eq!(result, vec![0]);
}

#[test]
fn number() {
    let result = eval_and_stack("42", &[]).unwrap();
    assert_eq!(result, vec![42]);
}

#[test]
fn simple_add() {
    let result = eval_and_stack("+", &[2, 2]).unwrap();
    assert_eq!(result, vec![4]);
}

#[test]
fn simple_sub() {
    let result = eval_and_stack("-", &[5, 2]).unwrap();
    assert_eq!(result, vec![3]);
}

#[test]
fn true_word() {
    let result = eval_and_stack("true", &[]).unwrap();
    assert_eq!(result, vec![-1]);
}

#[test]
fn false_word() {
    let result = eval_and_stack("false", &[]).unwrap();
    assert_eq!(result, vec![0]);
}

#[test]
fn simple_mul() {
    let result = eval_and_stack("*", &[3, 4]).unwrap();
    assert_eq!(result, vec![12]);
}

#[test]
fn simple_div() {
    let result = eval_and_stack("/", &[12, 3]).unwrap();
    assert_eq!(result, vec![4]);
}

#[test]
fn simple_mod() {
    let result = eval_and_stack("mod", &[13, 5]).unwrap();
    assert_eq!(result, vec![3]);
}

#[test]
fn simple_div_mod() {
    let result = eval_and_stack("/mod", &[13, 5]).unwrap();
    assert_eq!(result, vec![3, 2]);
}

#[test]
fn times_two() {
    let result = eval_and_stack("2*", &[7]).unwrap();
    assert_eq!(result, vec![14]);
}

#[test]
fn divide_by_two() {
    let result = eval_and_stack("2/", &[8]).unwrap();
    assert_eq!(result, vec![4]);
}

#[test]
fn add_one() {
    let result = eval_and_stack("1+", &[41]).unwrap();
    assert_eq!(result, vec![42]);
}

#[test]
fn sub_one() {
    let result = eval_and_stack("1-", &[43]).unwrap();
    assert_eq!(result, vec![42]);
}

#[test]
fn abs() {
    let result = eval_and_stack("abs", &[-42]).unwrap();
    assert_eq!(result, vec![42]);
}

#[test]
fn negate() {
    let result = eval_and_stack("negate", &[42]).unwrap();
    assert_eq!(result, vec![-42]);
}

#[test]
fn equal() {
    let result = eval_and_stack("=", &[5, 5]).unwrap();
    assert_eq!(result, vec![-1]);
}

#[test]
fn not_equal() {
    let result = eval_and_stack("<>", &[5, 6]).unwrap();
    assert_eq!(result, vec![1]);
}

#[test]
fn less() {
    let result = eval_and_stack("<", &[3, 4]).unwrap();
    assert_eq!(result, vec![-1]);
}

#[test]
fn greater() {
    let result = eval_and_stack(">", &[4, 3]).unwrap();
    assert_eq!(result, vec![-1]);
}

#[test]
fn zero_equal() {
    let result = eval_and_stack("0=", &[0]).unwrap();
    assert_eq!(result, vec![-1]);
}

#[test]
fn invert() {
    let result = eval_and_stack("invert", &[0]).unwrap();
    assert_eq!(result, vec![-1]);
}

#[test]
fn and() {
    let result = eval_and_stack("and", &[6, 3]).unwrap();
    assert_eq!(result, vec![2]);
}

#[test]
fn or() {
    let result = eval_and_stack("or", &[6, 3]).unwrap();
    assert_eq!(result, vec![7]);
}

#[test]
fn xor() {
    let result = eval_and_stack("xor", &[6, 3]).unwrap();
    assert_eq!(result, vec![5]);
}

#[test]
fn swap() {
    let result = eval_and_stack("swap", &[1, 2]).unwrap();
    assert_eq!(result, vec![2, 1]);
}

#[test]
fn dup() {
    let result = eval_and_stack("dup", &[42]).unwrap();
    assert_eq!(result, vec![42, 42]);
}

#[test]
fn drop() {
    let result = eval_and_stack("drop", &[1, 2]).unwrap();
    assert_eq!(result, vec![1]);
}

#[test]
fn rot() {
    let result = eval_and_stack("rot", &[1, 2, 3]).unwrap();
    assert_eq!(result, vec![2, 3, 1]);
}

#[test]
fn over() {
    let result = eval_and_stack("over", &[1, 2]).unwrap();
    assert_eq!(result, vec![1, 2, 1]);
}

#[test]
fn pick() {
    let result = eval_and_stack("1 pick", &[1, 2, 3]).unwrap();
    assert_eq!(result, vec![1, 2, 3, 2]);
}

#[test]
fn roll() {
    let result = eval_and_stack("3 roll", &[1, 2, 3, 4]).unwrap();
    assert_eq!(result, vec![2, 3, 4, 1]);
}

#[test]
fn depth() {
    let result = eval_and_stack("depth", &[1, 2, 3]).unwrap();
    assert_eq!(result, vec![1, 2, 3, 3]);
}

#[test]
fn clearstack() {
    let result = eval_and_stack("clearstack", &[1, 2, 3]).unwrap();
    assert_eq!(result, vec![]);
}

#[test]
fn if_then() {
    let result = eval_and_stack("1 if 42 then", &[]).unwrap();
    assert_eq!(result, vec![42]);
}

#[test]
fn if_else_then() {
    let result = eval_and_stack("0 if 1 else 2 then", &[]).unwrap();
    assert_eq!(result, vec![2]);
}

#[test]
#[should_panic]
fn underflow_for_empty_stack() {
    eval_and_stack("+", &[]).unwrap();
}

#[test]
#[should_panic]
fn underflow_for_one_value_on_stack() {
    eval_and_stack("+", &[1]).unwrap();
}

#[test]
#[should_panic]
fn division_by_zero() {
    eval_and_stack("/", &[1, 0]).unwrap();
}
