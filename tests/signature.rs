use ruxt_macros::layout::{augment_signature, get_layout_arg, layout_type_expr, Param, TypeExpr};

fn strings(items: &[&str]) -> Vec<String> {
    items.iter().map(|s| s.to_string()).collect()
}

fn expected_layout_type() -> TypeExpr {
    TypeExpr {
        path: strings(&["actix_web", "web", "Data"]),
        args: vec![TypeExpr {
            path: strings(&["Option"]),
            args: vec![TypeExpr { path: strings(&["ruxt", "Layout"]), args: vec![] }],
        }],
    }
}

#[test]
fn layout_type_is_shared_optional_layout() {
    assert_eq!(layout_type_expr(), expected_layout_type());
    assert_eq!(get_layout_arg(), Param::Typed("layout".to_string(), expected_layout_type()));
}

#[test]
fn layout_parameter_is_appended() {
    let a = Param::Typed("a".to_string(), TypeExpr { path: strings(&["T"]), args: vec![] });
    let out = augment_signature(vec![a]);
    assert_eq!(
        out,
        vec![
            Param::Typed("a".to_string(), TypeExpr { path: strings(&["T"]), args: vec![] }),
            Param::Typed("layout".to_string(), expected_layout_type()),
        ]
    );
}

#[test]
fn kept_parameters_keep_their_order() {
    let out = augment_signature(vec![Param::Kept(2), Param::Kept(0)]);
    assert_eq!(out.len(), 3);
    assert_eq!(out[0], Param::Kept(2));
    assert_eq!(out[1], Param::Kept(0));
}

#[test]
fn empty_signature_gains_only_layout() {
    assert_eq!(augment_signature(vec![]), vec![get_layout_arg()]);
}

#[test]
fn repeated_augmentation_adds_a_second_parameter() {
    let out = augment_signature(augment_signature(vec![]));
    assert_eq!(out, vec![get_layout_arg(), get_layout_arg()]);
}
