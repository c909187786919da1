use nexus_rs::ast::{Expr, ExprKind, Literal, LiteralKind};
use nexus_rs::ptr::Ptr;
use nexus_rs::token::Decimal;

fn literal(kind: LiteralKind) -> Expr {
    Expr { kind: ExprKind::Literal(Ptr::new(Literal { kind })) }
}

#[test]
fn ast_evaluate_literals() {
    let l1 = literal(LiteralKind::Bool(true));
    let l2 = literal(LiteralKind::Number(Decimal { mantissa: 31415, scale: 4 }));
    let l3 = literal(LiteralKind::String("Hello 123".to_string()));

    match &l1.kind {
        ExprKind::Literal(l) => assert_eq!(l.get().kind, LiteralKind::Bool(true)),
        _ => panic!("not a literal"),
    }
    match &l2.kind {
        ExprKind::Literal(l) => match &l.get().kind {
            LiteralKind::Number(d) => {
                assert!((d.mantissa as f64 / 10f64.powi(d.scale as i32) - 3.1415).abs() < 0.001)
            }
            _ => panic!("not a number"),
        },
        _ => panic!("not a literal"),
    }
    match &l3.kind {
        ExprKind::Literal(l) => assert_eq!(l.get().kind, LiteralKind::String("Hello 123".to_string())),
        _ => panic!("not a literal"),
    }
}

#[test]
fn test_new() {
    let p0 = Ptr::new(42);
    assert_eq!(p0.into_inner(), 42);

    let x = 42;
    let p1 = Ptr::new(x);
    assert_eq!(p1.into_inner(), 42);
}

#[test]
fn decimal_new_reduces_to_lowest_terms() {
    assert_eq!(Decimal::new(10000, 4), Decimal { mantissa: 1, scale: 0 });
    assert_eq!(Decimal::new(28539, 4), Decimal { mantissa: 28539, scale: 4 });
    assert_eq!(Decimal::new(0, 3), Decimal { mantissa: 0, scale: 0 });
    assert_eq!(Decimal::new(1200, 0), Decimal { mantissa: 1200, scale: 0 });
}
