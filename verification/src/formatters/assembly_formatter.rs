use crate::common::utf8::string_push;
use crate::formatters::instruction_text::{
    mnemonic, next_constant, next_constant_of, operands, push_instruction_text, rendered,
    renders_floats, targets_labeled,
};
use crate::formatters::text::{
    decimal, digits_len, hex_padded, lemma_digits_len_u64, push_decimal, push_hex_padded,
    push_repeated, repeated,
};
use crate::disassembler::instruction::{Instruction, InstructionInfo, SwitchCase};
use std::collections::HashMap;
use vstd::prelude::*;

verus! {

broadcast use {vstd::string::group_string_axioms, vstd::std_specs::hash::group_hash_axioms};

/// The character that marks a cut byte column.
pub open spec fn ellipsis() -> char {
    '\u{2026}'
}

/// The bytes in upper-case hexadecimal, two digits each, separated by
/// spaces.
pub open spec fn hex_pairs(bytes: Seq<u8>) -> Seq<char>
    decreases bytes.len(),
{
    if bytes.len() == 0 {
        seq![]
    } else if bytes.len() == 1 {
        hex_padded(bytes[0] as nat, 2)
    } else {
        hex_pairs(bytes.drop_last()) + seq![' '] + hex_padded(bytes.last() as nat, 2)
    }
}

/// How many bytes of an instruction of `count` bytes do not fit in a column
/// of `max_bytes` bytes.
pub open spec fn bytes_too_many(count: nat, max_bytes: nat) -> nat {
    if count > max_bytes {
        (count - max_bytes) as nat
    } else {
        0
    }
}

/// The length of the marker ` +N` for `too_many` bytes left out, where `N`
/// is `too_many` itself (zero when nothing is left out).
pub open spec fn marker_len(too_many: nat) -> nat {
    if too_many == 0 {
        0
    } else {
        decimal(too_many).len() + 2
    }
}

/// How many bytes make room for the marker: a byte takes three columns.
pub open spec fn bytes_hidden(count: nat, max_bytes: nat) -> nat {
    (marker_len(bytes_too_many(count, max_bytes)) + 2) / 3
}

/// How many bytes the column shows.
pub open spec fn bytes_shown(count: nat, max_bytes: nat) -> nat {
    let fit = if count < max_bytes {
        count
    } else {
        max_bytes
    };
    if fit > bytes_hidden(count, max_bytes) {
        (fit - bytes_hidden(count, max_bytes)) as nat
    } else {
        0
    }
}

/// The shown bytes, then ` +N` where `N` counts the bytes left out
/// (including those hidden for the marker), before padding.
pub open spec fn byte_text(code: Seq<u8>, max_bytes: nat, count: nat) -> Seq<char> {
    let left_out = bytes_too_many(count, max_bytes) + bytes_hidden(count, max_bytes);
    hex_pairs(code.take(bytes_shown(count, max_bytes) as int)) + if left_out > 0 {
        seq![' ', '+'] + decimal(left_out)
    } else {
        seq![]
    }
}

/// The width of the byte column in characters, without its final space.
pub open spec fn byte_column_len(max_bytes: nat) -> nat {
    (3 * max_bytes - 1) as nat
}

/// Whether the byte text is too long for its column and gets cut.
pub open spec fn byte_text_cut(code: Seq<u8>, max_bytes: nat, count: nat) -> bool {
    byte_text(code, max_bytes, count).len() > byte_column_len(max_bytes)
}

/// The byte column of an instruction: its first bytes in hexadecimal, a
/// ` +N` marker when some do not fit, cut with an ellipsis or padded with
/// spaces to the column's width, then one space. Empty when no bytes are to
/// be shown.
pub open spec fn byte_string(code: Seq<u8>, max_bytes: nat, count: nat) -> Seq<char> {
    if max_bytes == 0 {
        seq![]
    } else {
        let text = byte_text(code, max_bytes, count);
        let width = byte_column_len(max_bytes);
        if text.len() > width {
            text.take(width - 1).push(ellipsis()).push(' ')
        } else {
            (text + repeated(' ', (width - text.len()) as nat)).push(' ')
        }
    }
}

/// The length in UTF-8 bytes of the byte column: the ellipsis takes three
/// bytes, every other character one.
pub open spec fn byte_string_width(code: Seq<u8>, max_bytes: nat, count: nat) -> nat {
    if max_bytes == 0 {
        0
    } else if byte_text_cut(code, max_bytes, count) {
        byte_column_len(max_bytes) + 3
    } else {
        byte_column_len(max_bytes) + 1
    }
}

/// The label of a jump, call or case target.
pub open spec fn location_label(location: u32) -> Seq<char> {
    "loc_"@ + hex_padded(location as nat, 8)
}

/// The label of the function that the `counter`-th `ENTER` starts: its name,
/// or `func_` and the counter.
pub open spec fn function_label(name: Option<String>, counter: nat) -> Seq<char> {
    match name {
        Some(n) => n@,
        None => "func_"@ + decimal(counter),
    }
}

/// `m` with `value` at `key`, unless `key` has a label already.
pub open spec fn add_absent(
    m: Map<usize, Seq<char>>,
    key: usize,
    value: Seq<char>,
) -> Map<usize, Seq<char>> {
    if m.contains_key(key) {
        m
    } else {
        m.insert(key, value)
    }
}

/// `m` with a label for each case target that has none yet.
pub open spec fn add_case_labels(m: Map<usize, Seq<char>>, cases: Seq<SwitchCase>) -> Map<
    usize,
    Seq<char>,
>
    decreases cases.len(),
{
    if cases.len() == 0 {
        m
    } else {
        let last = cases.last();
        add_absent(
            add_case_labels(m, cases.drop_last()),
            last.location as usize,
            location_label(last.location),
        )
    }
}

/// The target of a jump or call.
pub open spec fn jump_target(instruction: Instruction) -> Option<u32> {
    match instruction {
        Instruction::Jump { location } => Some(location),
        Instruction::JumpZero { location } => Some(location),
        Instruction::IfEqualJumpZero { location } => Some(location),
        Instruction::IfNotEqualJumpZero { location } => Some(location),
        Instruction::IfLowerThanJumpZero { location } => Some(location),
        Instruction::IfGreaterThanJumpZero { location } => Some(location),
        Instruction::IfLowerOrEqualJumpZero { location } => Some(location),
        Instruction::IfGreaterOrEqualJumpZero { location } => Some(location),
        Instruction::FunctionCall { location } => Some(location),
        _ => None,
    }
}

/// The labels after the first `n` instructions, and how many functions
/// they start. A function's start takes its label over any other; a
/// target keeps the first label it got.
pub open spec fn labels_after(infos: Seq<InstructionInfo>, n: int) -> (Map<usize, Seq<char>>, nat)
    decreases n,
{
    if n <= 0 {
        (Map::empty(), 0)
    } else {
        let (m, counter) = labels_after(infos, n - 1);
        let info = infos[n - 1];
        match info.instruction {
            Instruction::Enter { name, .. } => (
                m.insert(info.pos, function_label(name, counter)),
                counter + 1,
            ),
            Instruction::Switch { cases } => (add_case_labels(m, cases@), counter),
            _ => match jump_target(info.instruction) {
                Some(location) => (
                    add_absent(m, location as usize, location_label(location)),
                    counter,
                ),
                None => (m, counter),
            },
        }
    }
}

/// The labels of a listing: each function's start and each target.
pub open spec fn labels_of(infos: Seq<InstructionInfo>) -> Map<usize, Seq<char>> {
    labels_after(infos, infos.len() as int).0
}

/// The labels of a map from positions to label strings.
pub open spec fn label_view(m: Map<usize, String>) -> Map<usize, Seq<char>> {
    m.map_values(|s: String| s@)
}

/// Adding case labels keeps every label there was and labels every case
/// target.
proof fn lemma_case_labels_keys(m: Map<usize, Seq<char>>, cases: Seq<SwitchCase>)
    ensures
        forall|k: usize| m.contains_key(k) ==> #[trigger] add_case_labels(m, cases).contains_key(k),
        forall|j: int|
            0 <= j < cases.len() ==> add_case_labels(m, cases).contains_key(
                (#[trigger] cases[j]).location as usize,
            ),
    decreases cases.len(),
{
    if cases.len() > 0 {
        lemma_case_labels_keys(m, cases.drop_last());
        assert forall|k: usize| m.contains_key(k) implies #[trigger] add_case_labels(
            m,
            cases,
        ).contains_key(k) by {
            assert(add_case_labels(m, cases.drop_last()).contains_key(k));
        }
        assert forall|j: int| 0 <= j < cases.len() implies add_case_labels(m, cases).contains_key(
            (#[trigger] cases[j]).location as usize,
        ) by {
            if j < cases.len() - 1 {
                assert(cases.drop_last()[j] == cases[j]);
            }
        }
    }
}

/// Later instructions only add labels.
proof fn lemma_labels_grow(infos: Seq<InstructionInfo>, m: int, n: int)
    requires
        0 <= m <= n <= infos.len(),
    ensures
        forall|k: usize|
            labels_after(infos, m).0.contains_key(k) ==> #[trigger] labels_after(
                infos,
                n,
            ).0.contains_key(k),
    decreases n - m,
{
    if m < n {
        lemma_labels_grow(infos, m, n - 1);
        let prev = labels_after(infos, n - 1).0;
        match infos[n - 1].instruction {
            Instruction::Switch { cases } => {
                lemma_case_labels_keys(prev, cases@);
            },
            _ => {},
        }
    }
}

/// The instruction at `i` has its labels once it has been read.
proof fn lemma_own_labels(infos: Seq<InstructionInfo>, i: int)
    requires
        0 <= i < infos.len(),
    ensures
        targets_labeled(infos[i].instruction, labels_after(infos, i + 1).0),
        infos[i].instruction is Enter ==> labels_after(infos, i + 1).0.contains_key(infos[i].pos),
{
    let prev = labels_after(infos, i).0;
    match infos[i].instruction {
        Instruction::Switch { cases } => {
            lemma_case_labels_keys(prev, cases@);
        },
        _ => {},
    }
}

/// Every function start and every jump, call and case target of a listing
/// has a label among the labels made from that listing: a formatter made
/// from a listing finds every label that listing needs.
pub proof fn lemma_labels_cover(infos: Seq<InstructionInfo>)
    ensures
        forall|i: int|
            0 <= i < infos.len() ==> {
                &&& targets_labeled(#[trigger] infos[i].instruction, labels_of(infos))
                &&& infos[i].instruction is Enter ==> labels_of(infos).contains_key(infos[i].pos)
            },
{
    assert forall|i: int| 0 <= i < infos.len() implies {
        &&& targets_labeled(#[trigger] infos[i].instruction, labels_of(infos))
        &&& infos[i].instruction is Enter ==> labels_of(infos).contains_key(infos[i].pos)
    } by {
        lemma_own_labels(infos, i);
        lemma_labels_grow(infos, i + 1, infos.len() as int);
        let own = labels_after(infos, i + 1).0;
        match infos[i].instruction {
            Instruction::Switch { cases } => {
                assert forall|j: int| 0 <= j < cases@.len() implies labels_of(infos).contains_key(
                    (#[trigger] cases@[j]).location as usize,
                ) by {
                    assert(own.contains_key(cases@[j].location as usize));
                }
            },
            _ => {},
        }
    }
}

/// Labels `location` unless it has a label already.
fn add_location_label(labels: &mut HashMap<usize, String>, location: u32)
    ensures
        label_view(final(labels)@) == add_absent(
            label_view(old(labels)@),
            location as usize,
            location_label(location),
        ),
{
    let key = location as usize;
    if !labels.contains_key(&key) {
        let mut label = String::from_str("loc_");
        push_hex_padded(&mut label, location as u64, 8);
        labels.insert(key, label);
        assert(label_view(labels@) =~= label_view(old(labels)@).insert(
            key,
            location_label(location),
        ));
    } else {
        assert(label_view(old(labels)@).contains_key(key));
    }
}

/// The labels of a listing: each function's start gets its name or
/// `func_N` for the N-th function; each jump, call and case target gets
/// `loc_` and its position in eight hexadecimal digits.
pub fn create_labels(instructions: &[InstructionInfo]) -> (r: HashMap<usize, String>)
    ensures
        label_view(r@) == labels_of(instructions@),
{
    let mut result: HashMap<usize, String> = HashMap::new();
    let mut fn_counter: usize = 0;
    let mut i: usize = 0;
    assert(label_view(result@) =~= Map::empty());
    while i < instructions.len()
        invariant
            i <= instructions@.len(),
            fn_counter <= i,
            (label_view(result@), fn_counter as nat) == labels_after(instructions@, i as int),
        decreases instructions@.len() - i,
    {
        let info = &instructions[i];
        match &info.instruction {
            Instruction::Enter { name, .. } => {
                let label = match name {
                    Some(n) => n.clone(),
                    None => {
                        let mut l = String::from_str("func_");
                        push_decimal(&mut l, fn_counter as u64);
                        l
                    },
                };
                result.insert(info.pos, label);
                assert(label_view(result@) =~= labels_after(instructions@, i as int).0.insert(
                    info.pos,
                    label@,
                ));
                fn_counter = fn_counter + 1;
            },
            Instruction::Switch { cases } => {
                let mut j: usize = 0;
                while j < cases.len()
                    invariant
                        j <= cases@.len(),
                        label_view(result@) == add_case_labels(
                            labels_after(instructions@, i as int).0,
                            cases@.take(j as int),
                        ),
                    decreases cases@.len() - j,
                {
                    add_location_label(&mut result, cases[j].location);
                    proof {
                        assert(cases@.take(j as int + 1).drop_last() =~= cases@.take(j as int));
                    }
                    j = j + 1;
                }
                assert(cases@.take(j as int) =~= cases@);
            },
            Instruction::Jump { location }
            | Instruction::JumpZero { location }
            | Instruction::IfEqualJumpZero { location }
            | Instruction::IfNotEqualJumpZero { location }
            | Instruction::IfLowerThanJumpZero { location }
            | Instruction::IfGreaterThanJumpZero { location }
            | Instruction::IfLowerOrEqualJumpZero { location }
            | Instruction::IfGreaterOrEqualJumpZero { location }
            | Instruction::FunctionCall { location } => {
                add_location_label(&mut result, *location);
            },
            _ => {},
        }
        i = i + 1;
    }
    result
}

/// What a listing line shows before its tab: the instruction's position in
/// eight hexadecimal digits and a space when offsets are shown, then `column`.
pub open spec fn line_prefix(include_offset: bool, pos: usize, column: Seq<char>) -> Seq<char> {
    if include_offset {
        hex_padded(pos as nat, 8) + seq![' '] + column
    } else {
        column
    }
}

/// The line that marks the start of a function.
pub open spec fn separator() -> Seq<char> {
    "; ========== F U N C T I O N =========="@
}

/// The line that defines a label.
pub open spec fn label_line(blank: Seq<char>, label: Seq<char>) -> Seq<char> {
    blank + seq!['.'] + label + seq![':']
}

/// The line of one case of a `SWITCH`: its value in hexadecimal, its
/// target's label, and its value in decimal after a comment mark.
pub open spec fn case_line(blank: Seq<char>, case: SwitchCase, labels: Map<usize, Seq<char>>) -> Seq<
    char,
> {
    blank + seq!['\t', '\t'] + "CASE 0x"@ + hex_padded(case.value as nat, 8) + seq![' ']
        + labels[case.location as usize] + seq![' ', ';', ' '] + decimal(case.value as nat)
}

/// The lines of one instruction. A labelled instruction is preceded by a
/// blank line and its label; a function's start by its label, and by a
/// separator between blank lines when separators are asked for. The
/// instruction's own line holds its position, bytes, mnemonic and operands;
/// a `SWITCH` is followed by one line per case.
pub open spec fn instruction_lines(
    include_offset: bool,
    max_bytes: nat,
    labels: Map<usize, Seq<char>>,
    strings: Seq<u8>,
    info: InstructionInfo,
    last_constant: u32,
    show_function_separators: bool,
    float_text: spec_fn(u32) -> Seq<char>,
) -> Seq<Seq<char>> {
    let code = info.bytes@;
    let prefix = line_prefix(include_offset, info.pos, byte_string(code, max_bytes, code.len()));
    let blank = line_prefix(
        include_offset,
        info.pos,
        repeated(' ', byte_string_width(code, max_bytes, code.len())),
    );
    let before = if info.instruction is Enter {
        (if show_function_separators {
            seq![blank, blank + separator(), blank]
        } else {
            seq![]
        }) + seq![label_line(blank, labels[info.pos])]
    } else if labels.contains_key(info.pos) {
        seq![blank, label_line(blank, labels[info.pos])]
    } else {
        seq![]
    };
    let main = prefix + seq!['\t'] + mnemonic(info.instruction) + operands(
        info.instruction,
        labels,
        strings,
        last_constant,
        float_text,
    );
    let after = match info.instruction {
        Instruction::Switch { cases } => cases@.map_values(
            |c: SwitchCase| case_line(blank, c, labels),
        ),
        _ => seq![],
    };
    before + seq![main] + after
}

/// The lines of the first `n` instructions, and the constant that a
/// following `STRING` would read its string at.
pub open spec fn listing_after(
    include_offset: bool,
    max_bytes: nat,
    labels: Map<usize, Seq<char>>,
    strings: Seq<u8>,
    infos: Seq<InstructionInfo>,
    n: int,
    show_function_separators: bool,
    float_text: spec_fn(u32) -> Seq<char>,
) -> (Seq<Seq<char>>, u32)
    decreases n,
{
    if n <= 0 {
        (seq![], 0)
    } else {
        let (lines, last) = listing_after(
            include_offset,
            max_bytes,
            labels,
            strings,
            infos,
            n - 1,
            show_function_separators,
            float_text,
        );
        (
            lines + instruction_lines(
                include_offset,
                max_bytes,
                labels,
                strings,
                infos[n - 1],
                last,
                show_function_separators,
                float_text,
            ),
            next_constant(infos[n - 1].instruction, last),
        )
    }
}

/// The lines joined with line feeds between them.
pub open spec fn join_lines(lines: Seq<Seq<char>>) -> Seq<char>
    decreases lines.len(),
{
    if lines.len() == 0 {
        seq![]
    } else if lines.len() == 1 {
        lines[0]
    } else {
        join_lines(lines.drop_last()) + seq!['\n'] + lines.last()
    }
}

/// Whether a listing can be formatted with `labels`: every function start
/// and every target has a label, and no instruction's byte count is within
/// eight of the largest `usize`.
pub open spec fn listable(labels: Map<usize, Seq<char>>, infos: Seq<InstructionInfo>) -> bool {
    forall|i: int|
        0 <= i < infos.len() ==> {
            &&& targets_labeled(#[trigger] infos[i].instruction, labels)
            &&& infos[i].instruction is Enter ==> labels.contains_key(infos[i].pos)
            &&& infos[i].bytes@.len() + 8 <= usize::MAX
        }
}

/// The texts of a list of strings.
pub open spec fn texts(lines: Seq<String>) -> Seq<Seq<char>> {
    lines.map_values(|s: String| s@)
}

/// Formats a disassembly as a listing, one instruction after another, with
/// labels for functions and jump targets.
pub struct AssemblyFormatter<'strings> {
    include_offset: bool,
    max_bytes_to_show: usize,
    labels: HashMap<usize, String>,
    string_table: &'strings [u8],
}

impl<'strings> AssemblyFormatter<'strings> {
    /// The labels of the listing.
    pub closed spec fn labels(&self) -> Map<usize, Seq<char>> {
        label_view(self.labels@)
    }

    /// Whether lines start with the instruction's position.
    pub closed spec fn shows_offsets(&self) -> bool {
        self.include_offset
    }

    /// How many bytes of an instruction the byte column shows at most.
    pub closed spec fn max_bytes(&self) -> nat {
        self.max_bytes_to_show as nat
    }

    /// The string table that `STRING` operands are read from.
    pub closed spec fn strings(&self) -> Seq<u8> {
        self.string_table@
    }

    /// A formatter for `instructions`, labelling their functions and targets.
    pub fn new(
        instructions: &[InstructionInfo],
        include_offset: bool,
        max_bytes_to_show: usize,
        string_table: &'strings [u8],
    ) -> (r: Self)
        ensures
            r.labels() == labels_of(instructions@),
            r.shows_offsets() == include_offset,
            r.max_bytes() == max_bytes_to_show,
            r.strings() == string_table@,
    {
        AssemblyFormatter {
            include_offset,
            max_bytes_to_show,
            labels: create_labels(instructions),
            string_table,
        }
    }

    /// The listing of `instructions`, its lines joined with line feeds;
    /// floats are rendered from their bits by `float_text`.
    pub fn format<F: Fn(u32) -> String>(
        &self,
        instructions: &[InstructionInfo],
        show_function_separators: bool,
        float_text: F,
    ) -> (r: String)
        requires
            listable(self.labels(), instructions@),
            3 * self.max_bytes() + 2 <= usize::MAX,
            renders_floats(float_text),
        ensures
            r@ == join_lines(
                listing_after(
                    self.shows_offsets(),
                    self.max_bytes(),
                    self.labels(),
                    self.strings(),
                    instructions@,
                    instructions@.len() as int,
                    show_function_separators,
                    rendered(float_text),
                ).0,
            ),
    {
        let mut lines: Vec<String> = Vec::new();
        let mut last_constant: u32 = 0;
        let mut i: usize = 0;
        while i < instructions.len()
            invariant
                i <= instructions@.len(),
                listable(self.labels(), instructions@),
                3 * self.max_bytes() + 2 <= usize::MAX,
                renders_floats(float_text),
                (texts(lines@), last_constant) == listing_after(
                    self.shows_offsets(),
                    self.max_bytes(),
                    self.labels(),
                    self.strings(),
                    instructions@,
                    i as int,
                    show_function_separators,
                    rendered(float_text),
                ),
            decreases instructions@.len() - i,
        {
            assert(targets_labeled(instructions@[i as int].instruction, self.labels()));
            last_constant = self.push_lines(
                &mut lines,
                &instructions[i],
                last_constant,
                show_function_separators,
                &float_text,
            );
            i = i + 1;
        }
        join(&lines)
    }

    /// Appends the lines of one instruction; returns the constant that a
    /// following `STRING` reads its string at.
    #[verifier::rlimit(40)]
    fn push_lines<F: Fn(u32) -> String>(
        &self,
        lines: &mut Vec<String>,
        info: &InstructionInfo,
        last_constant: u32,
        show_function_separators: bool,
        float_text: &F,
    ) -> (r: u32)
        requires
            targets_labeled(info.instruction, self.labels()),
            info.instruction is Enter ==> self.labels().contains_key(info.pos),
            info.bytes@.len() + 8 <= usize::MAX,
            3 * self.max_bytes() + 2 <= usize::MAX,
            renders_floats(*float_text),
        ensures
            texts(final(lines)@) == texts(old(lines)@) + instruction_lines(
                self.shows_offsets(),
                self.max_bytes(),
                self.labels(),
                self.strings(),
                *info,
                last_constant,
                show_function_separators,
                rendered(*float_text),
            ),
            r == next_constant(info.instruction, last_constant),
    {
        let ghost labels = self.labels();
        let ghost start = texts(lines@);
        let (bytes, width) = byte_column(info.bytes, self.max_bytes_to_show, info.bytes.len());
        let mut prefix = String::new();
        let mut blank = String::new();
        if self.include_offset {
            push_hex_padded(&mut prefix, info.pos as u64, 8);
            string_push(&mut prefix, ' ');
            push_hex_padded(&mut blank, info.pos as u64, 8);
            string_push(&mut blank, ' ');
        }
        prefix.append(bytes.as_str());
        push_repeated(&mut blank, ' ', width);
        let ghost code = info.bytes@;
        assert(prefix@ =~= line_prefix(
            self.include_offset,
            info.pos,
            byte_string(code, self.max_bytes(), code.len()),
        ));
        assert(blank@ =~= line_prefix(
            self.include_offset,
            info.pos,
            repeated(' ', byte_string_width(code, self.max_bytes(), code.len())),
        ));
        let is_enter = match &info.instruction {
            Instruction::Enter { .. } => true,
            _ => false,
        };
        if is_enter {
            if show_function_separators {
                lines.push(blank.clone());
                let mut separator_line = blank.clone();
                separator_line.append("; ========== F U N C T I O N ==========");
                lines.push(separator_line);
                lines.push(blank.clone());
            }
            let label = self.labels.get(&info.pos).unwrap();
            lines.push(make_label_line(&blank, label));
        } else {
            match self.labels.get(&info.pos) {
                Some(label) => {
                    lines.push(blank.clone());
                    lines.push(make_label_line(&blank, label));
                },
                None => {},
            }
        }
        let ghost blank_line = line_prefix(
            self.include_offset,
            info.pos,
            repeated(' ', byte_string_width(code, self.max_bytes(), code.len())),
        );
        let ghost before_lines = if info.instruction is Enter {
            (if show_function_separators {
                seq![blank_line, blank_line + separator(), blank_line]
            } else {
                seq![]
            }) + seq![label_line(blank_line, labels[info.pos])]
        } else if labels.contains_key(info.pos) {
            seq![blank_line, label_line(blank_line, labels[info.pos])]
        } else {
            seq![]
        };
        assert(texts(lines@) =~= start + before_lines);
        let ghost prefix_text = prefix@;
        let mut main = prefix;
        string_push(&mut main, '\t');
        push_instruction_text(
            &mut main,
            &info.instruction,
            &self.labels,
            self.string_table,
            last_constant,
            float_text,
        );
        let ghost main_text = main@;
        assert(main_text =~= prefix_text + seq!['\t'] + mnemonic(info.instruction) + operands(
            info.instruction,
            labels,
            self.string_table@,
            last_constant,
            rendered(*float_text),
        ));
        let ghost lines_before = lines@;
        lines.push(main);
        assert(texts(lines@) =~= texts(lines_before).push(main_text));
        let ghost with_main = texts(lines@);
        assert(with_main =~= start + before_lines + seq![prefix_text + seq!['\t'] + mnemonic(info.instruction) + operands(
            info.instruction,
            labels,
            self.string_table@,
            last_constant,
            rendered(*float_text),
        )]);
        match &info.instruction {
            Instruction::Switch { cases } => {
                assert(forall|k: int|
                    0 <= k < cases@.len() ==> labels.contains_key(
                        (#[trigger] cases@[k]).location as usize,
                    ));
                let mut j: usize = 0;
                while j < cases.len()
                    invariant
                        j <= cases@.len(),
                        forall|k: int|
                            0 <= k < cases@.len() ==> labels.contains_key(
                                (#[trigger] cases@[k]).location as usize,
                            ),
                        labels == label_view(self.labels@),
                        texts(lines@) == with_main + cases@.take(j as int).map_values(
                            |c: SwitchCase| case_line(blank@, c, labels),
                        ),
                    decreases cases@.len() - j,
                {
                    assert(labels.contains_key(cases@[j as int].location as usize));
                    let line = make_case_line(&blank, cases[j], &self.labels);
                    let ghost line_text = line@;
                    let ghost lines_before = lines@;
                    lines.push(line);
                    assert(texts(lines@) =~= texts(lines_before).push(line_text));
                    proof {
                        assert(cases@.take(j as int + 1).map_values(
                            |c: SwitchCase| case_line(blank@, c, labels),
                        ) =~= cases@.take(j as int).map_values(
                            |c: SwitchCase| case_line(blank@, c, labels),
                        ).push(case_line(blank@, cases@[j as int], labels)));
                        assert(texts(lines@) =~= with_main + cases@.take(j as int + 1).map_values(
                            |c: SwitchCase| case_line(blank@, c, labels),
                        ));
                    }
                    j = j + 1;
                }
                assert(cases@.take(j as int) =~= cases@);
            },
            _ => {},
        }
        assert(texts(lines@) =~= start + instruction_lines(
            self.shows_offsets(),
            self.max_bytes(),
            self.labels(),
            self.strings(),
            *info,
            last_constant,
            show_function_separators,
            rendered(*float_text),
        ));
        next_constant_of(&info.instruction, last_constant)
    }
}

/// The line that defines `label`.
fn make_label_line(blank: &String, label: &String) -> (r: String)
    ensures
        r@ == label_line(blank@, label@),
{
    let mut line = blank.clone();
    string_push(&mut line, '.');
    line.append(label.as_str());
    string_push(&mut line, ':');
    assert(line@ =~= label_line(blank@, label@));
    line
}

/// The line of one case of a `SWITCH`.
fn make_case_line(blank: &String, case: SwitchCase, labels: &HashMap<usize, String>) -> (r: String)
    requires
        label_view(labels@).contains_key(case.location as usize),
    ensures
        r@ == case_line(blank@, case, label_view(labels@)),
{
    let mut line = blank.clone();
    string_push(&mut line, '\t');
    string_push(&mut line, '\t');
    line.append("CASE 0x");
    push_hex_padded(&mut line, case.value as u64, 8);
    string_push(&mut line, ' ');
    let label = labels.get(&(case.location as usize)).unwrap();
    line.append(label.as_str());
    string_push(&mut line, ' ');
    string_push(&mut line, ';');
    string_push(&mut line, ' ');
    push_decimal(&mut line, case.value as u64);
    assert(line@ =~= case_line(blank@, case, label_view(labels@)));
    line
}

/// The lines joined with line feeds between them.
fn join(lines: &Vec<String>) -> (r: String)
    ensures
        r@ == join_lines(texts(lines@)),
{
    let mut r = String::new();
    let mut i: usize = 0;
    while i < lines.len()
        invariant
            i <= lines@.len(),
            r@ == join_lines(texts(lines@.take(i as int))),
        decreases lines@.len() - i,
    {
        let ghost before = r@;
        if i > 0 {
            string_push(&mut r, '\n');
        }
        r.append(lines[i].as_str());
        proof {
            let t = texts(lines@.take(i as int + 1));
            assert(t.drop_last() =~= texts(lines@.take(i as int)));
            assert(t.last() == lines@[i as int]@);
            if i == 0 {
                assert(t.len() == 1);
            }
            assert(r@ =~= join_lines(t));
        }
        i = i + 1;
    }
    assert(lines@.take(i as int) =~= lines@);
    r
}

/// Appends the first `num` bytes of `code` in hexadecimal, separated by
/// spaces.
fn push_hex_pairs(s: &mut String, code: &[u8], num: usize)
    requires
        num <= code@.len(),
    ensures
        final(s)@ == old(s)@ + hex_pairs(code@.take(num as int)),
{
    let mut i: usize = 0;
    while i < num
        invariant
            i <= num <= code@.len(),
            s@ == old(s)@ + hex_pairs(code@.take(i as int)),
        decreases num - i,
    {
        let ghost before = s@;
        if i > 0 {
            string_push(s, ' ');
        }
        push_hex_padded(s, code[i] as u64, 2);
        proof {
            let t = code@.take(i as int + 1);
            assert(t.drop_last() =~= code@.take(i as int));
            assert(t.last() == code@[i as int]);
            if i == 0 {
                assert(t.len() == 1);
                assert(hex_pairs(code@.take(0)) =~= seq![]);
            }
        }
        i = i + 1;
        assert(s@ =~= old(s)@ + hex_pairs(code@.take(i as int)));
    }
}

/// The byte column of an instruction of `count` bytes, `code` holding at
/// least the bytes shown, in a column of `max_bytes` bytes.
pub fn create_byte_string(code: &[u8], max_bytes: usize, count: usize) -> (r: String)
    requires
        bytes_shown(count as nat, max_bytes as nat) <= code@.len(),
        count + 8 <= usize::MAX,
        3 * max_bytes + 2 <= usize::MAX,
    ensures
        r@ == byte_string(code@, max_bytes as nat, count as nat),
{
    byte_column(code, max_bytes, count).0
}

/// The byte column and its length in UTF-8 bytes.
fn byte_column(code: &[u8], max_bytes: usize, count: usize) -> (r: (String, usize))
    requires
        bytes_shown(count as nat, max_bytes as nat) <= code@.len(),
        count + 8 <= usize::MAX,
        3 * max_bytes + 2 <= usize::MAX,
    ensures
        r.0@ == byte_string(code@, max_bytes as nat, count as nat),
        r.1 == byte_string_width(code@, max_bytes as nat, count as nat),
{
    if max_bytes == 0 {
        return (String::new(), 0);
    }
    let too_many: usize = if count > max_bytes {
        count - max_bytes
    } else {
        0
    };
    let marker: usize = if too_many == 0 {
        0
    } else {
        proof {
            lemma_digits_len_u64(too_many as nat, 10);
        }
        digits_len(too_many as u64, 10) + 2
    };
    let hidden: usize = (marker + 2) / 3;
    let left_out: usize = too_many + hidden;
    let fit: usize = if count < max_bytes {
        count
    } else {
        max_bytes
    };
    let shown: usize = if fit > hidden {
        fit - hidden
    } else {
        0
    };
    assert(shown == bytes_shown(count as nat, max_bytes as nat));
    let mut text = String::new();
    push_hex_pairs(&mut text, code, shown);
    if left_out > 0 {
        string_push(&mut text, ' ');
        string_push(&mut text, '+');
        push_decimal(&mut text, left_out as u64);
    }
    assert(text@ =~= byte_text(code@, max_bytes as nat, count as nat));
    let width: usize = max_bytes * 3 - 1;
    let len = text.as_str().unicode_len();
    let mut r;
    let bytes_len: usize;
    if len > width {
        r = String::from_str(text.as_str().substring_char(0, width - 1));
        string_push(&mut r, '\u{2026}');
        bytes_len = width + 3;
    } else {
        r = text;
        push_repeated(&mut r, ' ', width - len);
        bytes_len = width + 1;
    }
    string_push(&mut r, ' ');
    (r, bytes_len)
}

} // verus!
