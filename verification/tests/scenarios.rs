use sorth::error::ScriptError;
use sorth::interpreter::SorthInterpreter;
use sorth::value::Value;
use sorth::words::register_base_words;

fn fresh() -> SorthInterpreter {
    let mut interp = SorthInterpreter::new();
    register_base_words(&mut interp).expect("registering the base words should succeed");
    interp
}

fn eval_ints(source: &str) -> Result<Vec<i64>, ScriptError> {
    let mut interp = fresh();
    interp.run_source("<test>", source)?;
    Ok(interp.stack().iter().map(|v| v.get_int_val()).collect())
}

fn eval_strings(source: &str) -> Result<Vec<String>, ScriptError> {
    let mut interp = fresh();
    interp.run_source("<test>", source)?;
    Ok(interp.stack().iter().map(|v| v.get_string_val()).collect())
}

#[test]
fn two_and_three_add_to_five() {
    assert_eq!(eval_ints("2 3 +").unwrap(), vec![5]);
}

#[test]
fn defined_word_squares_its_argument() {
    assert_eq!(eval_ints(": square dup * ; 4 square").unwrap(), vec![16]);
}

#[test]
fn conditional_takes_the_matching_branch() {
    assert_eq!(eval_ints("0 if 10 else 20 then").unwrap(), vec![20]);
    assert_eq!(eval_ints("1 if 10 else 20 then").unwrap(), vec![10]);
}

#[test]
fn variable_roundtrip() {
    assert_eq!(eval_ints("variable x  42 x ! x @").unwrap(), vec![42]);
}

#[test]
fn variable_does_not_survive_word_exit() {
    // A word's managed context owns the variables defined inside it; after
    // the word returns, the name is gone.
    let mut interp = fresh();
    interp
        .run_source("<test>", ": make-var variable local 42 local ! ; make-var")
        .unwrap();
    let result = interp.run_source("<test>", "local @");
    assert!(result.is_err());
}

#[test]
fn counted_loop_leaves_the_stack_depth_unchanged() {
    let mut interp = fresh();
    interp.run_source("<test>", "10 0 do i loop").unwrap();
    assert_eq!(interp.stack().len(), 0);
}

#[test]
fn caught_error_pushes_its_message_for_the_handler() {
    assert_eq!(
        eval_strings("try 1 0 / catch drop \"err\" endtry").unwrap(),
        vec!["err".to_string()]
    );
}

#[test]
fn deep_clone_isolates_the_duplicated_array() {
    // Duplicating an array value shares the array, so a push through one
    // copy shows through the other.
    let source = "variable a  3 [].new a !  a @ dup  7 swap [].push_back!  [].size@";
    assert_eq!(eval_ints(source).unwrap(), vec![4]);
    // A constant deep clones on every push, so mutating one push's result is
    // not observable on the next.
    let source2 = "3 [].new constant arr  7 arr [].push_back!  arr [].size@";
    assert_eq!(eval_ints(source2).unwrap(), vec![3]);
}

#[test]
fn begin_until_loops_to_the_limit() {
    let mut interp = fresh();
    interp.push(Value::Int(0));
    interp.run_source("<test>", "begin 1 + dup 10 > until").unwrap();
    let result: Vec<i64> = interp.stack().iter().map(|v| v.get_int_val()).collect();
    assert_eq!(result, vec![11]);
}

#[test]
fn begin_while_repeat_loops_to_the_limit() {
    let mut interp = fresh();
    interp.push(Value::Int(0));
    interp
        .run_source("<test>", "begin 1 + dup 10 < while repeat")
        .unwrap();
    let result: Vec<i64> = interp.stack().iter().map(|v| v.get_int_val()).collect();
    assert_eq!(result, vec![10]);
}

#[test]
fn nested_counted_loops_leave_nothing() {
    assert_eq!(eval_ints("3 0 do 2 0 do j i loop loop").unwrap(), vec![]);
}

#[test]
fn compile_time_conditional_compiles_one_branch() {
    // The test value must be on the stack while compiling, so it comes from
    // an immediate word.
    assert_eq!(eval_ints("[defined?] dup [if] 1 [else] 2 [then]").unwrap(), vec![1]);
    assert_eq!(
        eval_ints("[defined?] no-such-word [if] 1 [else] 2 [then]").unwrap(),
        vec![2]
    );
}

#[test]
fn constants_push_their_value() {
    assert_eq!(eval_ints("42 constant answer answer answer").unwrap(), vec![42, 42]);
}

#[test]
fn unknown_word_is_a_script_error() {
    assert!(eval_ints("no-such-word").is_err());
}

#[test]
fn throw_is_catchable() {
    assert_eq!(
        eval_strings("try \"boom\" throw catch drop \"handled\" endtry").unwrap(),
        vec!["handled".to_string()]
    );
}

#[test]
fn strings_concatenate_with_plus() {
    assert_eq!(
        eval_strings("\"fore\" \"word\" +").unwrap(),
        vec!["foreword".to_string()]
    );
}

#[test]
fn string_words_inspect_and_edit() {
    assert_eq!(eval_ints("\"hello\" string.size@").unwrap(), vec![5]);
    assert_eq!(
        eval_strings("\"ll\" 2 \"heo\" string.[]!").unwrap(),
        vec!["hello".to_string()]
    );
    assert_eq!(eval_ints("\"lo\" \"hello\" string.find").unwrap(), vec![3]);
    assert_eq!(eval_strings("1 \"hello\" string.[]@").unwrap(), vec!["e".to_string()]);
    assert_eq!(eval_ints("\"1234\" string.to_number").unwrap(), vec![1234]);
}

#[test]
fn hex_renders_numbers() {
    assert_eq!(eval_strings("255 hex").unwrap(), vec!["ff".to_string()]);
}

#[test]
fn arrays_read_and_write_by_index() {
    assert_eq!(
        eval_ints("variable a  3 [].new a !  7 1 a @ []!  1 a @ []@").unwrap(),
        vec![7]
    );
}

#[test]
fn array_pushes_and_pops_work_at_both_ends() {
    let source = "variable a  0 [].new a !  1 a @ [].push_back!  2 a @ [].push_front!  \
                  a @ [].pop_back!  a @ [].pop_front!";
    assert_eq!(eval_ints(source).unwrap(), vec![1, 2]);
}

#[test]
fn hash_tables_store_and_find_values() {
    assert_eq!(
        eval_ints("variable t  {}.new t !  42 \"key\" t @ {}!  \"key\" t @ {}@").unwrap(),
        vec![42]
    );
    let mut interp = fresh();
    interp
        .run_source("<test>", "variable t  {}.new t !  \"missing\" t @ {}?")
        .unwrap();
    assert_eq!(interp.stack().len(), 1);
    assert!(matches!(interp.stack()[0], Value::Bool(false)));
}

#[test]
fn hash_find_of_a_missing_key_is_an_error() {
    assert!(eval_ints("variable t  {}.new t !  \"missing\" t @ {}@").is_err());
}

#[test]
fn structures_carry_their_fields() {
    let source = "variable fs  2 [].new fs !  \"x\" 0 fs @ []!  \"y\" 1 fs @ []!  \
                  \"point\" fs @ false false #  variable p  point.new p !  \
                  5 p @ point.x!  p @ point.x@";
    assert_eq!(eval_ints(source).unwrap(), vec![5]);
}

#[test]
fn structure_equality_is_by_fields() {
    let source = "variable fs  2 [].new fs !  \"a\" 0 fs @ []!  \"b\" 1 fs @ []!  \
                  \"pair\" fs @ false false #  pair.new pair.new #.=";
    let mut interp = fresh();
    interp.run_source("<test>", source).unwrap();
    assert!(matches!(interp.stack()[0], Value::Bool(true)));
}

#[test]
fn buffer_int_roundtrip_through_words() {
    let source = "variable b  8 buffer.new b !  4660 b @ 2 buffer.int!  0 b @ buffer.position!  \
                  b @ 2 true buffer.int@";
    assert_eq!(eval_ints(source).unwrap(), vec![4660]);
}

#[test]
fn buffer_string_roundtrip_through_words() {
    let source = "variable b  8 buffer.new b !  \"hi\" b @ 5 buffer.string!  \
                  0 b @ buffer.position!  b @ 5 buffer.string@";
    assert_eq!(eval_strings(source).unwrap(), vec!["hi".to_string()]);
}

#[test]
fn literals_pushed_from_code_cannot_be_mutated_in_place() {
    // The constant's array literal is deep cloned on every push, so mutating
    // what one push produced does not change what the next push produces.
    let source = "2 [].new constant template  9 0 template []!  0 template []@";
    let mut interp = fresh();
    interp.run_source("<test>", source).unwrap();
    assert!(matches!(interp.stack()[0], Value::Nothing));
}

#[test]
fn stack_depth_words_report_growth() {
    assert_eq!(eval_ints("1 2 3 stack.depth").unwrap(), vec![1, 2, 3, 3]);
    assert_eq!(eval_ints("1 2 drop drop stack.max-depth").unwrap(), vec![2]);
}

#[test]
fn comparisons_answer_with_booleans_or_flags() {
    assert_eq!(eval_ints("3 4 <=").unwrap(), vec![1]);
    assert_eq!(eval_ints("4 4 >=").unwrap(), vec![1]);
    assert_eq!(eval_ints("5 4 <").unwrap(), vec![0]);
    assert_eq!(eval_ints("\"abc\" \"abd\" <").unwrap(), vec![-1]);
}

#[test]
fn token_accessors_answer_by_kind() {
    let tokens = sorth::tokenizing::tokenize_from_source("<test>", "42 \"text\" word").unwrap();
    assert!(tokens[0].is_number());
    assert_eq!(tokens[0].number().unwrap(), 42);
    assert!(tokens[0].text().is_err());
    assert!(tokens[1].is_string());
    assert_eq!(tokens[1].string().unwrap(), "text");
    assert!(tokens[1].is_textual());
    assert!(tokens[2].is_word());
    assert_eq!(tokens[2].word().unwrap(), "word");
    assert!(tokens[2].number().is_err());
    assert!(tokens[0].string().is_err());
    assert!(tokens[1].word().is_err());
}

#[test]
fn unterminated_definition_is_an_error() {
    assert!(eval_ints(": open-ended dup").is_err());
}

#[test]
fn break_leaves_a_loop_early() {
    assert_eq!(
        eval_ints("0 begin 1 + dup 3 = if break then dup 100 > until").unwrap(),
        vec![3]
    );
}

#[test]
fn words_execute_by_name_and_index() {
    assert_eq!(eval_ints("\"dup\" 4 swap execute +").unwrap(), vec![8]);
    assert_eq!(eval_ints(": twice 2 * ; ` twice 7 swap execute").unwrap(), vec![14]);
}

#[test]
fn defined_answers_for_both_cases() {
    let mut interp = fresh();
    interp.run_source("<test>", "\"dup\" defined? \"no-such\" defined?").unwrap();
    assert!(matches!(interp.stack()[0], Value::Bool(true)));
    assert!(matches!(interp.stack()[1], Value::Bool(false)));
}

#[test]
fn unique_strings_differ() {
    let values = eval_strings("unique_str unique_str").unwrap();
    assert_ne!(values[0], values[1]);
}

#[test]
fn structure_field_queries() {
    let source = "variable fs  1 [].new fs !  \"x\" 0 fs @ []!  \"box\" fs @ false false #  \
                  variable b  box.new b !  \"x\" b @ #.field-exists?  \"y\" box.new #.field-exists?";
    let mut interp = fresh();
    interp.run_source("<test>", source).unwrap();
    assert!(matches!(interp.stack()[0], Value::Bool(true)));
    assert!(matches!(interp.stack()[1], Value::Bool(false)));
}

#[test]
fn generic_field_words_read_and_write() {
    let source = "variable fs  2 [].new fs !  \"a\" 0 fs @ []!  \"b\" 1 fs @ []!  \
                  \"cell\" fs @ false false #  variable c  cell.new c !  \
                  9 c @ 1 #!  c @ 1 #@";
    assert_eq!(eval_ints(source).unwrap(), vec![9]);
}

#[test]
fn hash_merge_and_size() {
    let source = "variable a  {}.new a !  variable b  {}.new b !  \
                  1 \"one\" a @ {}!  2 \"two\" b @ {}!  a @ b @ {}.+ {}.size@";
    assert_eq!(eval_ints(source).unwrap(), vec![2]);
}

#[test]
fn array_append_merges_deep_copies() {
    let source = "variable a  1 [].new a !  variable b  1 [].new b !  \
                  1 0 a @ []!  2 0 b @ []!  a @ b @ [].+ [].size@";
    assert_eq!(eval_ints(source).unwrap(), vec![2]);
}

#[test]
fn uncaught_error_reports_its_location() {
    let mut interp = fresh();
    let error = interp.run_source("somewhere", "\n  1 0 /").unwrap_err();
    let text = error.to_display_string();
    assert!(text.contains("Division by zero."));
    assert!(text.contains("somewhere"));
}

#[test]
fn value_kind_words_inspect_the_top() {
    let mut interp = fresh();
    interp
        .run_source("<test>", "42 value.is-number?  \"x\" value.is-string?  none value.is-none?")
        .unwrap();
    assert!(matches!(interp.stack()[0], Value::Bool(true)));
    assert!(matches!(interp.stack()[1], Value::Bool(true)));
    assert!(matches!(interp.stack()[2], Value::Bool(true)));
}

#[test]
fn merged_dictionary_lists_each_name_once() {
    let mut interp = fresh();
    interp
        .run_source("<test>", ": alpha 1 ; : alpha 2 ; : beta 3 ;")
        .unwrap();
    let merged = interp.dictionary().get_merged();
    let alphas: Vec<_> = merged.iter().filter(|entry| entry.0 == "alpha").collect();
    assert_eq!(alphas.len(), 1);
    // The surviving binding is the newest: executing alpha pushes two.
    interp.run_source("<test>", "alpha").unwrap();
    let result: Vec<i64> = interp.stack().iter().map(|v| v.get_int_val()).collect();
    assert_eq!(result, vec![2]);
}

#[test]
fn word_table_describes_the_dictionary() {
    let source = ": greet 1 ;  words.get{} constant words  \"greet\" words {}?";
    let mut interp = fresh();
    interp.run_source("<test>", source).unwrap();
    assert!(matches!(interp.stack()[0], Value::Bool(true)));
}

#[test]
fn division_truncates_toward_zero() {
    assert_eq!(eval_ints("-7 2 /").unwrap(), vec![-3]);
    assert_eq!(eval_ints("7 -2 /").unwrap(), vec![-3]);
    assert_eq!(eval_ints("-7 2 mod").unwrap(), vec![-1]);
    assert_eq!(eval_ints("-7 2 /mod").unwrap(), vec![-1, -3]);
}
