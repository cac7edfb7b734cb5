use micah::mips_parser::{
    build_label_map, find_label, parse_line_to_component, parse_lines_to_program, MIPSComponent,
    MIPSDirective, MIPSInstruction, MIPSLabel, MIPSLocation,
};
use micah::smart_split::TokenError;

fn compare_results(test: Vec<MIPSComponent>, expected: Vec<MIPSComponent>) {
    let test_len = test.len();
    let exp_len = expected.len();
    assert_eq!(
        test_len, exp_len,
        "Test vector (length: {}) and expected vector (length: {}) different lengths",
        test_len, exp_len
    );
    for (test, exp) in expected.iter().zip(test.iter()) {
        match (test, exp) {
            (MIPSComponent::Label(x), MIPSComponent::Label(y)) => assert_eq!(x, y),
            (MIPSComponent::Instruction(x), MIPSComponent::Instruction(y)) => assert_eq!(x, y),
            (MIPSComponent::Directive(x), MIPSComponent::Directive(y)) => assert_eq!(x, y),
            (x, y) => panic!("MIPS Components do not match: {:?}, {:?}", x, y),
        }
    }
}

#[test]
fn test_parse_line_to_parts_label() {
    let loc = MIPSLocation {
        file: "".to_string(),
        line_num: 0,
        line_text: "".to_string(),
    };
    compare_results(
        parse_line_to_component(&"label: ".to_string(), loc.clone())
            .unwrap()
            .unwrap(),
        vec![MIPSComponent::Label(MIPSLabel {
            label: "label:".to_string(),
        })],
    );
    compare_results(
        parse_line_to_component(&"label1: label2: ".to_string(), loc.clone())
            .unwrap()
            .unwrap(),
        vec![
            MIPSComponent::Label(MIPSLabel {
                label: "label1:".to_string(),
            }),
            MIPSComponent::Label(MIPSLabel {
                label: "label2:".to_string(),
            }),
        ],
    );
}

#[test]
fn test_parse_line_to_parts_directive() {
    let loc = MIPSLocation {
        file: "".to_string(),
        line_num: 0,
        line_text: "".to_string(),
    };
    compare_results(
        parse_line_to_component(&".directive".to_string(), loc.clone())
            .unwrap()
            .unwrap(),
        vec![MIPSComponent::Directive(MIPSDirective {
            directive_type: "directive".to_string(),
            directive_value: vec![],
            directive_location: loc.clone(),
        })],
    );
    compare_results(
        parse_line_to_component(&".directive arg1 arg2".to_string(), loc.clone())
            .unwrap()
            .unwrap(),
        vec![MIPSComponent::Directive(MIPSDirective {
            directive_type: "directive".to_string(),
            directive_value: vec!["arg1".to_string(), "arg2".to_string()],
            directive_location: loc.clone(),
        })],
    );
}

#[test]
fn test_parse_line_to_parts_label_directive() {
    let loc = MIPSLocation {
        file: "".to_string(),
        line_num: 0,
        line_text: "".to_string(),
    };
    compare_results(
        parse_line_to_component(&"label:    \t .directive".to_string(), loc.clone())
            .unwrap()
            .unwrap(),
        vec![
            MIPSComponent::Label(MIPSLabel {
                label: "label:".to_string(),
            }),
            MIPSComponent::Directive(MIPSDirective {
                directive_type: "directive".to_string(),
                directive_value: vec![],
                directive_location: loc.clone(),
            }),
        ],
    );
    compare_results(
        parse_line_to_component(&"label: .directive \targ1 \targ2".to_string(), loc.clone())
            .unwrap()
            .unwrap(),
        vec![
            MIPSComponent::Label(MIPSLabel {
                label: "label:".to_string(),
            }),
            MIPSComponent::Directive(MIPSDirective {
                directive_type: "directive".to_string(),
                directive_value: vec!["arg1".to_string(), "arg2".to_string()],
                directive_location: loc.clone(),
            }),
        ],
    );
    compare_results(
        parse_line_to_component(&"label: .directive 'text text text'".to_string(), loc.clone())
            .unwrap()
            .unwrap(),
        vec![
            MIPSComponent::Label(MIPSLabel {
                label: "label:".to_string(),
            }),
            MIPSComponent::Directive(MIPSDirective {
                directive_type: "directive".to_string(),
                directive_value: vec!["'text text text'".to_string()],
                directive_location: loc.clone(),
            }),
        ],
    );
}

#[test]
fn test_parse_line_to_parts_assembly() {
    let loc = MIPSLocation {
        file: "".to_string(),
        line_num: 0,
        line_text: "".to_string(),
    };
    compare_results(
        parse_line_to_component(&"asm".to_string(), loc.clone())
            .unwrap()
            .unwrap(),
        vec![MIPSComponent::Instruction(MIPSInstruction {
            instr_type: "asm".to_string(),
            instr_args: vec![],
            instr_location: loc.clone(),
        })],
    );
    compare_results(
        parse_line_to_component(&"asm arg1 arg2".to_string(), loc.clone())
            .unwrap()
            .unwrap(),
        vec![MIPSComponent::Instruction(MIPSInstruction {
            instr_type: "asm".to_string(),
            instr_args: vec!["arg1".to_string(), "arg2".to_string()],
            instr_location: loc.clone(),
        })],
    );
}

#[test]
fn test_parse_line_to_parts_label_assembly() {
    let loc = MIPSLocation {
        file: "".to_string(),
        line_num: 0,
        line_text: "".to_string(),
    };
    compare_results(
        parse_line_to_component(&"label:    \t asm".to_string(), loc.clone())
            .unwrap()
            .unwrap(),
        vec![
            MIPSComponent::Label(MIPSLabel {
                label: "label:".to_string(),
            }),
            MIPSComponent::Instruction(MIPSInstruction {
                instr_type: "asm".to_string(),
                instr_args: vec![],
                instr_location: loc.clone(),
            }),
        ],
    );
    compare_results(
        parse_line_to_component(&"label1: label2: asm \targ1 \targ2".to_string(), loc.clone())
            .unwrap()
            .unwrap(),
        vec![
            MIPSComponent::Label(MIPSLabel {
                label: "label1:".to_string(),
            }),
            MIPSComponent::Label(MIPSLabel {
                label: "label2:".to_string(),
            }),
            MIPSComponent::Instruction(MIPSInstruction {
                instr_type: "asm".to_string(),
                instr_args: vec!["arg1".to_string(), "arg2".to_string()],
                instr_location: loc.clone(),
            }),
        ],
    );
}

#[test]
fn empty_line_yields_no_components() {
    let loc = MIPSLocation {
        file: "".to_string(),
        line_num: 0,
        line_text: "".to_string(),
    };
    assert!(parse_line_to_component(&"".to_string(), loc.clone())
        .unwrap()
        .is_none());
    assert!(parse_line_to_component(&"   \t ,, ".to_string(), loc)
        .unwrap()
        .is_none());
}

#[test]
fn malformed_line_reports_the_tokenizer_error() {
    let loc = MIPSLocation {
        file: "".to_string(),
        line_num: 0,
        line_text: "".to_string(),
    };
    assert_eq!(
        parse_line_to_component(&"asm 'unterminated".to_string(), loc.clone()),
        Err(TokenError::UnterminatedQuote)
    );
    assert_eq!(
        parse_line_to_component(&"asm dangling\\".to_string(), loc),
        Err(TokenError::DanglingEscape)
    );
}

#[test]
fn program_accumulates_components_in_source_order() {
    let lines = vec![
        "main: add $t0, $t1, $t2".to_string(),
        "".to_string(),
        ".data".to_string(),
        "loop: j loop".to_string(),
    ];
    let program = parse_lines_to_program("prog.s", &lines).unwrap();
    assert_eq!(program.len(), 5);
    assert!(matches!(&program[0], MIPSComponent::Label(l) if l.label == "main:"));
    match &program[1] {
        MIPSComponent::Instruction(i) => {
            assert_eq!(i.instr_type, "add");
            assert_eq!(i.instr_args, vec!["$t0", "$t1", "$t2"]);
            assert_eq!(i.instr_location.file, "prog.s");
            assert_eq!(i.instr_location.line_num, 0);
            assert_eq!(i.instr_location.line_text, "main: add $t0, $t1, $t2");
        }
        other => panic!("expected an instruction, got {:?}", other),
    }
    match &program[2] {
        MIPSComponent::Directive(d) => {
            assert_eq!(d.directive_type, "data");
            assert!(d.directive_value.is_empty());
            assert_eq!(d.directive_location.line_num, 2);
        }
        other => panic!("expected a directive, got {:?}", other),
    }
    assert!(matches!(&program[3], MIPSComponent::Label(l) if l.label == "loop:"));
    assert!(matches!(&program[4], MIPSComponent::Instruction(i) if i.instr_type == "j"));
}

#[test]
fn program_error_carries_the_line_location() {
    let lines = vec!["fine".to_string(), "broken 'quote".to_string()];
    let err = parse_lines_to_program("bad.s", &lines).unwrap_err();
    assert_eq!(err.kind, TokenError::UnterminatedQuote);
    assert_eq!(err.location.file, "bad.s");
    assert_eq!(err.location.line_num, 1);
    assert_eq!(err.location.line_text, "broken 'quote");
}

#[test]
fn label_map_positions_and_lookup() {
    let lines = vec![
        "start: nop".to_string(),
        "mid1: mid2: .word 1".to_string(),
        "nop".to_string(),
    ];
    let program = parse_lines_to_program("map.s", &lines).unwrap();
    let map = build_label_map(&program);
    assert_eq!(map.len(), 3);
    assert_eq!(map[0].name, "start:");
    assert_eq!(map[0].position, 0);
    assert_eq!(map[1].name, "mid1:");
    assert_eq!(map[1].position, 2);
    assert_eq!(map[2].name, "mid2:");
    assert_eq!(map[2].position, 3);
    assert_eq!(find_label(&map, "mid1:"), Some(2));
    assert_eq!(find_label(&map, "absent:"), None);
}
