//! The line classifier: turns one tokenized line of source text plus its
//! provenance into zero or more typed components.
//!
//! Any number of leading tokens ending in `:` become labels, each emitted
//! as its own component in source order. The first non-label token decides
//! the rest of the line: a token starting with `.` yields one directive
//! (leading dot stripped from the name, the remaining tokens its arguments
//! verbatim), any other token yields one instruction (the token as its
//! mnemonic, the remaining tokens its arguments). A line with no tokens
//! yields no components.

use vstd::prelude::*;

use crate::smart_split::{
    SmartSplit, TokenError, lemma_next_bounds, spec_next, spec_tokenize, spec_tokens_from,
};

verus! {

/// Provenance of a parsed line: originating file name, zero-based line
/// number, and the raw line text, attached to directives and instructions
/// for diagnostics.
#[derive(Debug, Clone)]
pub struct MIPSLocation {
    pub file: String,
    pub line_num: usize,
    pub line_text: String,
}

/// The mathematical model of a `MIPSLocation`.
pub ghost struct LocationView {
    pub file: Seq<char>,
    pub line_num: int,
    pub line_text: Seq<char>,
}

impl View for MIPSLocation {
    type V = LocationView;

    open spec fn view(&self) -> LocationView {
        LocationView {
            file: self.file@,
            line_num: self.line_num as int,
            line_text: self.line_text@,
        }
    }
}

impl PartialEq for MIPSLocation {
    fn eq(&self, other: &MIPSLocation) -> (r: bool) {
        self.file == other.file && self.line_num == other.line_num && self.line_text
            == other.line_text
    }
}

impl vstd::std_specs::cmp::PartialEqSpecImpl for MIPSLocation {
    open spec fn obeys_eq_spec() -> bool {
        true
    }

    open spec fn eq_spec(&self, other: &MIPSLocation) -> bool {
        self@ == other@
    }
}

/// An assembler directive: its name (leading `.` stripped), its arguments
/// in order, and where it stood.
#[derive(Debug)]
pub struct MIPSDirective {
    pub directive_type: String,
    pub directive_value: Vec<String>,
    pub directive_location: MIPSLocation,
}

/// A label, stored with its trailing colon retained, matching the
/// tokenizer's convention. Labels carry no location: several may share one
/// line.
#[derive(Debug)]
pub struct MIPSLabel {
    pub label: String,
}

/// An instruction: its mnemonic (the first token verbatim), its arguments
/// in order, and where it stood.
#[derive(Debug)]
pub struct MIPSInstruction {
    pub instr_type: String,
    pub instr_args: Vec<String>,
    pub instr_location: MIPSLocation,
}

/// A parsed unit of source: label, directive, or instruction.
#[derive(Debug)]
pub enum MIPSComponent {
    Directive(MIPSDirective),
    Label(MIPSLabel),
    Instruction(MIPSInstruction),
}

/// The mathematical model of a `MIPSComponent`.
pub ghost enum ComponentView {
    Directive { name: Seq<char>, args: Seq<Seq<char>>, location: LocationView },
    Label { text: Seq<char> },
    Instruction { mnemonic: Seq<char>, args: Seq<Seq<char>>, location: LocationView },
}

impl View for MIPSComponent {
    type V = ComponentView;

    open spec fn view(&self) -> ComponentView {
        match self {
            MIPSComponent::Directive(d) => ComponentView::Directive {
                name: d.directive_type@,
                args: d.directive_value.deep_view(),
                location: d.directive_location@,
            },
            MIPSComponent::Label(l) => ComponentView::Label { text: l.label@ },
            MIPSComponent::Instruction(i) => ComponentView::Instruction {
                mnemonic: i.instr_type@,
                args: i.instr_args.deep_view(),
                location: i.instr_location@,
            },
        }
    }
}

impl DeepView for MIPSComponent {
    type V = ComponentView;

    open spec fn deep_view(&self) -> ComponentView {
        self.view()
    }
}

/// Whether two argument lists hold the same strings in the same order.
fn string_vecs_equal(a: &Vec<String>, b: &Vec<String>) -> (r: bool)
    ensures
        r == (a.deep_view() == b.deep_view()),
{
    if a.len() != b.len() {
        assert(a.deep_view().len() != b.deep_view().len());
        return false;
    }
    let n = a.len();
    let mut i: usize = 0;
    while i < n
        invariant
            i <= n,
            n == a@.len(),
            n == b@.len(),
            forall|k: int| 0 <= k < i as int ==> a.deep_view()[k] == b.deep_view()[k],
        decreases n - i,
    {
        if !(a[i] == b[i]) {
            assert(a.deep_view()[i as int] != b.deep_view()[i as int]);
            return false;
        }
        i = i + 1;
    }
    proof {
        assert(a.deep_view() =~= b.deep_view());
    }
    true
}

impl PartialEq for MIPSDirective {
    fn eq(&self, other: &MIPSDirective) -> (r: bool) {
        self.directive_type == other.directive_type && string_vecs_equal(
            &self.directive_value,
            &other.directive_value,
        ) && self.directive_location == other.directive_location
    }
}

impl vstd::std_specs::cmp::PartialEqSpecImpl for MIPSDirective {
    open spec fn obeys_eq_spec() -> bool {
        true
    }

    open spec fn eq_spec(&self, other: &MIPSDirective) -> bool {
        &&& self.directive_type@ == other.directive_type@
        &&& self.directive_value.deep_view() == other.directive_value.deep_view()
        &&& self.directive_location@ == other.directive_location@
    }
}

impl PartialEq for MIPSLabel {
    fn eq(&self, other: &MIPSLabel) -> (r: bool) {
        self.label == other.label
    }
}

impl vstd::std_specs::cmp::PartialEqSpecImpl for MIPSLabel {
    open spec fn obeys_eq_spec() -> bool {
        true
    }

    open spec fn eq_spec(&self, other: &MIPSLabel) -> bool {
        self.label@ == other.label@
    }
}

impl PartialEq for MIPSInstruction {
    fn eq(&self, other: &MIPSInstruction) -> (r: bool) {
        self.instr_type == other.instr_type && string_vecs_equal(
            &self.instr_args,
            &other.instr_args,
        ) && self.instr_location == other.instr_location
    }
}

impl vstd::std_specs::cmp::PartialEqSpecImpl for MIPSInstruction {
    open spec fn obeys_eq_spec() -> bool {
        true
    }

    open spec fn eq_spec(&self, other: &MIPSInstruction) -> bool {
        &&& self.instr_type@ == other.instr_type@
        &&& self.instr_args.deep_view() == other.instr_args.deep_view()
        &&& self.instr_location@ == other.instr_location@
    }
}

impl PartialEq for MIPSComponent {
    fn eq(&self, other: &MIPSComponent) -> (r: bool) {
        match (self, other) {
            (MIPSComponent::Directive(a), MIPSComponent::Directive(b)) => a == b,
            (MIPSComponent::Label(a), MIPSComponent::Label(b)) => a == b,
            (MIPSComponent::Instruction(a), MIPSComponent::Instruction(b)) => a == b,
            _ => false,
        }
    }
}

impl vstd::std_specs::cmp::PartialEqSpecImpl for MIPSComponent {
    open spec fn obeys_eq_spec() -> bool {
        true
    }

    open spec fn eq_spec(&self, other: &MIPSComponent) -> bool {
        self@ == other@
    }
}

/// The components of one tokenized line: leading `:`-tokens become labels
/// in order; the first other token decides between one directive (leading
/// `.` stripped, remaining tokens its arguments) and one instruction; no
/// tokens yield no components.
pub open spec fn spec_classify(tokens: Seq<Seq<char>>, loc: LocationView) -> Seq<ComponentView>
    decreases tokens.len(),
{
    if tokens.len() == 0 {
        Seq::empty()
    } else {
        let t = tokens[0];
        if t.len() > 0 && t[t.len() - 1] == ':' {
            seq![ComponentView::Label { text: t }] + spec_classify(tokens.drop_first(), loc)
        } else if t.len() > 0 && t[0] == '.' {
            seq![
                ComponentView::Directive {
                    name: t.subrange(1, t.len() as int),
                    args: tokens.drop_first(),
                    location: loc,
                },
            ]
        } else {
            seq![
                ComponentView::Instruction {
                    mnemonic: t,
                    args: tokens.drop_first(),
                    location: loc,
                },
            ]
        }
    }
}

/// The tokenizer for one line, positioned at its start.
pub fn parse_line_to_parts<'a>(line: &'a String) -> (r: SmartSplit<'a>)
    ensures
        r.string@ == line@,
        r.cur_pos == 0,
        r.wf(),
{
    SmartSplit::new(line.as_str())
}

/// Classifies the tokens remaining in `parts` into components: labels in
/// order, then at most one directive or instruction carrying `location`.
/// Yields `Ok(None)` when no token remains, and the tokenizer's error on a
/// malformed line.
pub fn parse_parts_to_component(parts: &mut SmartSplit, location: MIPSLocation) -> (r: Result<
    Option<Vec<MIPSComponent>>,
    TokenError,
>)
    requires
        old(parts).wf(),
    ensures
        final(parts).wf(),
        final(parts).string == old(parts).string,
        match spec_tokens_from(old(parts).string@, old(parts).cur_pos as int) {
            Err(e) => r == Err::<Option<Vec<MIPSComponent>>, TokenError>(e),
            Ok(toks) => if toks.len() == 0 {
                r == Ok::<Option<Vec<MIPSComponent>>, TokenError>(None)
            } else {
                &&& r is Ok
                &&& r->Ok_0 is Some
                &&& r->Ok_0->Some_0.deep_view() == spec_classify(toks, location@)
            },
        },
    decreases parts.string@.len() - parts.cur_pos,
{
    let ghost s = parts.string@;
    let ghost pos0 = parts.cur_pos as int;
    proof {
        lemma_next_bounds(s, pos0);
    }
    let first = match parts.next() {
        Err(e) => {
            return Err(e);
        },
        Ok(None) => {
            return Ok(None);
        },
        Ok(Some(t)) => t,
    };
    let ghost se = spec_next(s, pos0)->Ok_0->Some_0;
    let ghost toks = spec_tokens_from(s, pos0)->Ok_0;
    let n = first.unicode_len();
    let mut components: Vec<MIPSComponent> = Vec::new();
    if first.get_char(n - 1) == ':' {
        let new_label = MIPSLabel { label: first.to_owned() };
        components.push(MIPSComponent::Label(new_label));
        match parse_parts_to_component(parts, location) {
            Err(e) => Err(e),
            Ok(recursed) => {
                let ghost label_views = components.deep_view();
                if let Some(mut recursed_parts) = recursed {
                    proof {
                        assert(recursed_parts.deep_view() == spec_classify(
                            spec_tokens_from(s, se.1)->Ok_0,
                            location@,
                        ));
                    }
                    components.append(&mut recursed_parts);
                }
                proof {
                    if spec_tokens_from(s, se.1) is Ok {
                        let rest = spec_tokens_from(s, se.1)->Ok_0;
                        assert(toks == seq![s.subrange(se.0, se.1)] + rest);
                        assert(toks.len() > 0);
                        let t = toks[0];
                        assert(t == first@);
                        assert(t.len() > 0 && t[t.len() - 1] == ':');
                        assert(toks.drop_first() =~= rest);
                        assert(spec_classify(toks, location@) == seq![
                            ComponentView::Label { text: t },
                        ] + spec_classify(rest, location@));
                        assert(label_views =~= seq![ComponentView::Label { text: t }]);
                        if rest.len() == 0 {
                            assert(spec_classify(rest, location@) =~= Seq::<ComponentView>::empty());
                        }
                        assert(components.deep_view() =~= spec_classify(toks, location@));
                    }
                }
                Ok(Some(components))
            },
        }
    } else if first.get_char(0) == '.' {
        let directive_type_str = first.substring_char(1, n);
        let directive_value = parts.remaining_tokens()?;
        let directive = MIPSDirective {
            directive_type: directive_type_str.to_owned(),
            directive_value,
            directive_location: location,
        };
        components.push(MIPSComponent::Directive(directive));
        proof {
            let rest = spec_tokens_from(s, se.1)->Ok_0;
            assert(toks =~= seq![s.subrange(se.0, se.1)] + rest);
            assert(toks.drop_first() =~= rest);
            assert(components.deep_view() =~= spec_classify(toks, location@));
        }
        Ok(Some(components))
    } else {
        let instr_args = parts.remaining_tokens()?;
        let instruction = MIPSInstruction {
            instr_type: first.to_owned(),
            instr_args,
            instr_location: location,
        };
        components.push(MIPSComponent::Instruction(instruction));
        proof {
            let rest = spec_tokens_from(s, se.1)->Ok_0;
            assert(toks =~= seq![s.subrange(se.0, se.1)] + rest);
            assert(toks.drop_first() =~= rest);
            assert(components.deep_view() =~= spec_classify(toks, location@));
        }
        Ok(Some(components))
    }
}

/// A malformed source line, reported with its provenance so diagnostics
/// are actionable.
#[derive(Debug)]
pub struct ParseError {
    pub kind: TokenError,
    pub location: MIPSLocation,
}

/// The mathematical model of a `ParseError`.
pub ghost struct ParseErrorView {
    pub kind: TokenError,
    pub location: LocationView,
}

impl View for ParseError {
    type V = ParseErrorView;

    open spec fn view(&self) -> ParseErrorView {
        ParseErrorView { kind: self.kind, location: self.location@ }
    }
}

/// The program built from the lines of one file, from line `i` on: each
/// line's components in source order, all concatenated; or the first
/// malformed line's error, with that line's provenance.
pub open spec fn spec_parse_program(file: Seq<char>, lines: Seq<Seq<char>>, i: int) -> Result<
    Seq<ComponentView>,
    ParseErrorView,
>
    decreases lines.len() - i
        when 0 <= i <= lines.len()
{
    if i >= lines.len() {
        Ok(Seq::empty())
    } else {
        let loc = LocationView { file, line_num: i, line_text: lines[i] };
        match spec_tokenize(lines[i]) {
            Err(e) => Err(ParseErrorView { kind: e, location: loc }),
            Ok(toks) => match spec_parse_program(file, lines, i + 1) {
                Err(e) => Err(e),
                Ok(rest) => Ok(spec_classify(toks, loc) + rest),
            },
        }
    }
}

/// Parses every line of a file in order and accumulates all produced
/// components into one program, insertion order being source order. Stops
/// at the first malformed line and reports it with its provenance.
pub fn parse_lines_to_program(file: &str, lines: &Vec<String>) -> (r: Result<
    Vec<MIPSComponent>,
    ParseError,
>)
    ensures
        match r {
            Ok(program) => spec_parse_program(file@, lines.deep_view(), 0) == Ok::<
                Seq<ComponentView>,
                ParseErrorView,
            >(program.deep_view()),
            Err(e) => spec_parse_program(file@, lines.deep_view(), 0) == Err::<
                Seq<ComponentView>,
                ParseErrorView,
            >(e@),
        },
{
    let ghost lv = lines.deep_view();
    let mut program: Vec<MIPSComponent> = Vec::new();
    let n = lines.len();
    let mut i: usize = 0;
    while i < n
        invariant
            i <= n,
            n == lines@.len(),
            lv == lines.deep_view(),
            spec_parse_program(file@, lv, 0) == (match spec_parse_program(file@, lv, i as int) {
                Ok(rest) => Ok::<Seq<ComponentView>, ParseErrorView>(program.deep_view() + rest),
                Err(e) => Err::<Seq<ComponentView>, ParseErrorView>(e),
            }),
        decreases n - i,
    {
        let ghost old_prog = program.deep_view();
        let ghost loc_view = LocationView { file: file@, line_num: i as int, line_text: lv[i as int] };
        let location = MIPSLocation {
            file: file.to_owned(),
            line_num: i,
            line_text: lines[i].clone(),
        };
        proof {
            assert(location@ == loc_view);
        }
        match parse_line_to_component(&lines[i], location) {
            Err(kind) => {
                let location = MIPSLocation {
                    file: file.to_owned(),
                    line_num: i,
                    line_text: lines[i].clone(),
                };
                return Err(ParseError { kind, location });
            },
            Ok(None) => {
                proof {
                    let toks = spec_tokenize(lv[i as int])->Ok_0;
                    assert(spec_classify(toks, loc_view) =~= Seq::<ComponentView>::empty());
                    match spec_parse_program(file@, lv, i as int + 1) {
                        Ok(rest) => {
                            assert(old_prog + (spec_classify(toks, loc_view) + rest) =~= old_prog
                                + rest);
                        },
                        Err(_) => {},
                    }
                }
            },
            Ok(Some(mut components)) => {
                let ghost cv = components.deep_view();
                program.append(&mut components);
                proof {
                    assert(program.deep_view() =~= old_prog + cv);
                    match spec_parse_program(file@, lv, i as int + 1) {
                        Ok(rest) => {
                            assert(old_prog + (cv + rest) =~= program.deep_view() + rest);
                        },
                        Err(_) => {},
                    }
                }
            },
        }
        i = i + 1;
    }
    proof {
        assert(program.deep_view() + Seq::<ComponentView>::empty() =~= program.deep_view());
    }
    Ok(program)
}

/// One entry of the label lookup: a label's stored text (trailing colon
/// retained) and its position in the program; the component the label
/// marks is the one that follows that position.
#[derive(Debug)]
pub struct LabelEntry {
    pub name: String,
    pub position: usize,
}

/// The mathematical model of a `LabelEntry`.
pub ghost struct LabelEntryView {
    pub name: Seq<char>,
    pub position: int,
}

impl View for LabelEntry {
    type V = LabelEntryView;

    open spec fn view(&self) -> LabelEntryView {
        LabelEntryView { name: self.name@, position: self.position as int }
    }
}

impl DeepView for LabelEntry {
    type V = LabelEntryView;

    open spec fn deep_view(&self) -> LabelEntryView {
        self.view()
    }
}

/// The label lookup of a program: one entry per label component, in
/// program order, each with the label's position.
pub open spec fn spec_label_map(components: Seq<ComponentView>) -> Seq<LabelEntryView>
    decreases components.len(),
{
    if components.len() == 0 {
        Seq::empty()
    } else {
        let prefix = spec_label_map(components.drop_last());
        match components.last() {
            ComponentView::Label { text } => prefix + seq![
                LabelEntryView { name: text, position: components.len() - 1 },
            ],
            _ => prefix,
        }
    }
}

/// Builds the label lookup of a program: every label component, in order,
/// with its position.
pub fn build_label_map(program: &Vec<MIPSComponent>) -> (r: Vec<LabelEntry>)
    ensures
        r.deep_view() == spec_label_map(program.deep_view()),
{
    let mut map: Vec<LabelEntry> = Vec::new();
    let n = program.len();
    let mut i: usize = 0;
    while i < n
        invariant
            i <= n,
            n == program@.len(),
            map.deep_view() == spec_label_map(program.deep_view().take(i as int)),
        decreases n - i,
    {
        let ghost pv = program.deep_view();
        let ghost old_map = map.deep_view();
        match &program[i] {
            MIPSComponent::Label(l) => {
                map.push(LabelEntry { name: l.label.clone(), position: i });
            },
            _ => {},
        }
        proof {
            assert(pv.take(i as int + 1).drop_last() =~= pv.take(i as int));
            assert(pv.take(i as int + 1).last() == pv[i as int]);
            if pv[i as int] is Label {
                assert(map.deep_view() =~= old_map + seq![
                    LabelEntryView { name: pv[i as int]->Label_text, position: i as int },
                ]);
            }
        }
        i = i + 1;
    }
    proof {
        assert(program.deep_view().take(n as int) =~= program.deep_view());
    }
    map
}

/// The position the label lookup gives a name: its first entry with that
/// name, or none.
pub open spec fn spec_find_label(entries: Seq<LabelEntryView>, name: Seq<char>) -> Option<int>
    decreases entries.len(),
{
    if entries.len() == 0 {
        None
    } else if entries[0].name == name {
        Some(entries[0].position)
    } else {
        spec_find_label(entries.drop_first(), name)
    }
}

/// Whether two string slices hold the same characters.
fn str_equal(a: &str, b: &str) -> (r: bool)
    ensures
        r == (a@ == b@),
{
    let n = a.unicode_len();
    if n != b.unicode_len() {
        return false;
    }
    let mut i: usize = 0;
    while i < n
        invariant
            i <= n,
            n == a@.len(),
            n == b@.len(),
            forall|k: int| 0 <= k < i as int ==> a@[k] == b@[k],
        decreases n - i,
    {
        if a.get_char(i) != b.get_char(i) {
            return false;
        }
        i = i + 1;
    }
    proof {
        assert(a@ =~= b@);
    }
    true
}

/// Looks a label name up in the label lookup: the position of its first
/// entry, or `None` for a name no label bears.
pub fn find_label(map: &Vec<LabelEntry>, name: &str) -> (r: Option<usize>)
    ensures
        match r {
            Some(pos) => spec_find_label(map.deep_view(), name@) == Some(pos as int),
            None => spec_find_label(map.deep_view(), name@) is None,
        },
{
    let ghost ev = map.deep_view();
    proof {
        assert(ev.skip(0) =~= ev);
    }
    let n = map.len();
    let mut i: usize = 0;
    while i < n
        invariant
            i <= n,
            n == map@.len(),
            ev == map.deep_view(),
            spec_find_label(ev, name@) == spec_find_label(ev.skip(i as int), name@),
        decreases n - i,
    {
        proof {
            assert(ev.skip(i as int).drop_first() =~= ev.skip(i as int + 1));
            assert(ev.skip(i as int)[0] == ev[i as int]);
        }
        if str_equal(map[i].name.as_str(), name) {
            return Some(map[i].position);
        }
        i = i + 1;
    }
    proof {
        assert(ev.skip(n as int) =~= Seq::<LabelEntryView>::empty());
    }
    None
}

/// Tokenizes and classifies one whole line.
pub fn parse_line_to_component(line: &String, location: MIPSLocation) -> (r: Result<
    Option<Vec<MIPSComponent>>,
    TokenError,
>)
    ensures
        match spec_tokenize(line@) {
            Err(e) => r == Err::<Option<Vec<MIPSComponent>>, TokenError>(e),
            Ok(toks) => if toks.len() == 0 {
                r == Ok::<Option<Vec<MIPSComponent>>, TokenError>(None)
            } else {
                &&& r is Ok
                &&& r->Ok_0 is Some
                &&& r->Ok_0->Some_0.deep_view() == spec_classify(toks, location@)
            },
        },
{
    let mut parts = parse_line_to_parts(line);
    parse_parts_to_component(&mut parts, location)
}

} // verus!
