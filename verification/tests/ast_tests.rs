use mini_calc::ast::{Ast, Parameters};

#[test]
pub fn test_new() {
    let expected = Ast::Node {
        value: Parameters::Int(2),
        left: Box::from(Ast::Nil),
        right: Box::from(Ast::Nil),
    };
    let result = Ast::new(Parameters::Int(2));
    assert_eq!(result, expected)
}

#[test]
pub fn test_insert_left() {
    let expected = Ast::Node {
        value: Parameters::Int(2),
        left: Box::from(Ast::new(Parameters::Int(2))),
        right: Box::from(Ast::Nil),
    };
    let result = Ast::new(Parameters::Int(2)).insert_left(Ast::new(Parameters::Int(2)));
    assert_eq!(result, expected)
}

#[test]
pub fn test_insert_right() {
    let expected = Ast::Node {
        value: Parameters::Int(2),
        left: Box::from(Ast::Nil),
        right: Box::from(Ast::new(Parameters::Int(2))),
    };
    let result = Ast::new(Parameters::Int(2)).insert_right(Ast::new(Parameters::Int(2)));
    assert_eq!(result, expected)
}

#[test]
pub fn test_insert_both() {
    let expected = Ast::Node {
        value: Parameters::Int(2),
        left: Box::from(Ast::new(Parameters::Int(2))),
        right: Box::from(Ast::new(Parameters::Int(2))),
    };
    let result = Ast::new(Parameters::Int(2))
        .insert_right(Ast::new(Parameters::Int(2)))
        .insert_left(Ast::new(Parameters::Int(2)));
    assert_eq!(result, expected);
}
