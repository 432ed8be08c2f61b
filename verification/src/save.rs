//! Save files: the programs of a machine, by node.

use crate::parse::{
    error_models, parse_program, spec_parse_program, ErrorModel, ParseProgramError, ProgramErrors,
};
use crate::text::{chars_of, is_numeric, numeric, parse_unsigned, string_of, unsigned_number};
use crate::types::{Instruction, Program};
use crate::vmap::KEY_LIMIT;
use vec_map::VecMap;
use vstd::prelude::*;

verus! {

/// The programs of a machine, by the number of the node that runs them.
pub type Save = VecMap<Program>;

/// The programs that a save holds, by node.
pub uninterp spec fn programs(save: VecMap<Vec<Instruction>>) -> Map<usize, Seq<Instruction>>;

/// `VecMap::new`: the new save holds no program.
#[verifier::external_body]
pub(crate) fn save_new() -> (res: Save)
    ensures
        programs(res) =~= Map::empty(),
{
    VecMap::new()
}

/// `VecMap::insert`: stores `program` for node `key`, in place of any program
/// the node had. The other nodes keep theirs.
#[verifier::external_body]
pub(crate) fn save_insert(save: &mut Save, key: usize, program: Program)
    requires
        key < KEY_LIMIT,
    ensures
        programs(*final(save)) == programs(*old(save)).insert(key, program@),
{
    save.insert(key, program);
}

/// `VecMap::get`, cloned: a copy of the program stored for node `key`, if
/// there is one. The save is not changed.
#[verifier::external_body]
pub(crate) fn save_get(save: &Save, key: usize) -> (res: Option<Program>)
    ensures
        res is Some <==> programs(*save).contains_key(key),
        res is Some ==> res->0@ == programs(*save)[key],
{
    save.get(key).cloned()
}

/// The errors in the programs of a save file, by the number of the node.
pub type SaveErrors = VecMap<ProgramErrors>;

/// Why a save file could not be loaded.
#[derive(Debug)]
pub enum LoadSaveError {
    /// Some of its programs have errors.
    ParseFailed(SaveErrors),
    /// It could not be read.
    LoadFailed,
}

/// The lists of errors that a `SaveErrors` holds, by node.
pub uninterp spec fn error_lists(errors: VecMap<Vec<(usize, ParseProgramError)>>) -> Map<
    usize,
    Seq<(usize, ErrorModel)>,
>;

/// `VecMap::new`: the new map holds no list of errors.
#[verifier::external_body]
pub(crate) fn save_errors_new() -> (res: SaveErrors)
    ensures
        error_lists(res) =~= Map::empty(),
{
    VecMap::new()
}

/// `VecMap::insert`: stores the list `errors` for node `key`, in place of
/// any list the node had. The other nodes keep theirs.
#[verifier::external_body]
pub(crate) fn save_errors_insert(map: &mut SaveErrors, key: usize, errors: ProgramErrors)
    requires
        key < KEY_LIMIT,
    ensures
        error_lists(*final(map)) == error_lists(*old(map)).insert(key, error_models(errors@)),
{
    map.insert(key, errors);
}

/// `VecMap::keys`, collected: every node that has a list of errors exactly
/// once, in ascending order.
#[verifier::external_body]
pub(crate) fn save_errors_keys(map: &SaveErrors) -> (res: Vec<usize>)
    ensures
        forall|i: int| 0 <= i < res@.len() ==> error_lists(*map).contains_key(#[trigger] res@[i]),
        forall|i: int, j: int| 0 <= i < j < res@.len() ==> res@[i] < res@[j],
        forall|k: usize|
            error_lists(*map).contains_key(k) ==> exists|i: int|
                0 <= i < res@.len() && #[trigger] res@[i] == k,
{
    map.keys().collect()
}

/// `VecMap::get`: the list of errors stored for node `key`, if there is
/// one. The map is not changed.
#[verifier::external_body]
pub(crate) fn save_errors_get(map: &SaveErrors, key: usize) -> (res: Option<&ProgramErrors>)
    ensures
        res is Some <==> error_lists(*map).contains_key(key),
        res is Some ==> error_models(res->0@) == error_lists(*map)[key],
{
    map.get(key)
}

/// How far the cutting of a text at a separator has come: the parts that are
/// complete, and the one that is not.
#[verifier::ext_equal]
pub ghost struct Cut {
    pub parts: Seq<Seq<char>>,
    pub cur: Seq<char>,
}

/// The cutting after one more character: the separator completes the part,
/// any other character joins it.
pub open spec fn cut_char(st: Cut, c: char, sep: char) -> Cut {
    if c == sep {
        Cut { parts: st.parts.push(st.cur), cur: Seq::empty() }
    } else {
        Cut { cur: st.cur.push(c), ..st }
    }
}

/// The cutting of a whole text.
pub open spec fn cut(chars: Seq<char>, sep: char) -> Cut
    decreases chars.len(),
{
    if chars.len() == 0 {
        Cut { parts: Seq::empty(), cur: Seq::empty() }
    } else {
        cut_char(cut(chars.drop_last(), sep), chars.last(), sep)
    }
}

/// The parts of a text between the separators: one more than it has
/// separators, empty ones among them.
pub open spec fn spec_split_on(chars: Seq<char>, sep: char) -> Seq<Seq<char>> {
    cut(chars, sep).parts.push(cut(chars, sep).cur)
}

/// The views of the vectors in `v`.
pub open spec fn char_seqs(v: Seq<Vec<char>>) -> Seq<Seq<char>> {
    Seq::new(v.len(), |i: int| v[i]@)
}

/// Cuts a text at every separator.
pub fn split_on(chars: &Vec<char>, sep: char) -> (r: Vec<Vec<char>>)
    ensures
        char_seqs(r@) == spec_split_on(chars@, sep),
{
    let mut parts: Vec<Vec<char>> = Vec::new();
    let mut cur: Vec<char> = Vec::new();
    let mut i: usize = 0;
    while i < chars.len()
        invariant
            i <= chars.len(),
            char_seqs(parts@) == cut(chars@.take(i as int), sep).parts,
            cur@ == cut(chars@.take(i as int), sep).cur,
        decreases chars.len() - i,
    {
        let ghost before = cut(chars@.take(i as int), sep);
        assert(chars@.take(i + 1).drop_last() == chars@.take(i as int));
        assert(chars@.take(i + 1).last() == chars@[i as int]);
        if chars[i] == sep {
            parts.push(cur);
            assert(char_seqs(parts@) == before.parts.push(before.cur));
            cur = Vec::new();
        } else {
            cur.push(chars[i]);
        }
        i += 1;
    }
    assert(chars@.take(chars@.len() as int) == chars@);
    let ghost done = cut(chars@, sep);
    parts.push(cur);
    assert(char_seqs(parts@) == done.parts.push(done.cur));
    parts
}

/// Where the run of numeric characters that starts at `from` ends.
pub open spec fn numeric_run(s: Seq<char>, from: int) -> int
    decreases s.len() - from,
{
    if 0 <= from < s.len() && numeric(s[from]) {
        numeric_run(s, from + 1)
    } else {
        from
    }
}

/// Where the line that holds the character at `from` ends: at the next line
/// feed, or at the end of the text.
pub open spec fn line_end(s: Seq<char>, from: int) -> int
    decreases s.len() - from,
{
    if 0 <= from < s.len() && s[from] != '\n' {
        line_end(s, from + 1)
    } else {
        from
    }
}

/// The node that a section of a save file is for: the number that the
/// numeric characters at its start spell, if they spell one below
/// [`KEY_LIMIT`].
pub open spec fn section_node(section: Seq<char>) -> Option<usize> {
    match unsigned_number(section.take(numeric_run(section, 0))) {
        Some(n) => if n < KEY_LIMIT {
            Some(n)
        } else {
            None
        },
        None => None,
    }
}

/// The text of the program in a section of a save file: what follows its
/// first line.
pub open spec fn section_source(section: Seq<char>) -> Seq<char> {
    let end = line_end(section, 0);
    if end < section.len() {
        section.skip(end + 1)
    } else {
        Seq::empty()
    }
}

/// What a save file holds: the programs that are right, and the errors of
/// those that are not, by node.
#[verifier::ext_equal]
pub ghost struct SaveModel {
    pub programs: Map<usize, Seq<Instruction>>,
    pub errors: Map<usize, Seq<(usize, ErrorModel)>>,
}

impl SaveModel {
    /// Whether any program has errors.
    pub open spec fn has_errors(self) -> bool {
        exists|k: usize| self.errors.contains_key(k)
    }
}

/// The save after one more section. A section that is for no node adds
/// nothing; the program of any other section is stored for its node, or, if
/// it has errors, its errors are.
pub open spec fn save_step(st: SaveModel, section: Seq<char>) -> SaveModel {
    match section_node(section) {
        Some(num) => match spec_parse_program(section_source(section)) {
            Ok(program) => SaveModel { programs: st.programs.insert(num, program), ..st },
            Err(errors) => SaveModel { errors: st.errors.insert(num, errors), ..st },
        },
        None => st,
    }
}

/// The save after the sections up to, but not including, the one at `upto`.
/// The part before the first `@` is no section.
pub open spec fn save_pass(parts: Seq<Seq<char>>, upto: nat) -> SaveModel
    decreases upto,
{
    if upto <= 1 {
        SaveModel { programs: Map::empty(), errors: Map::empty() }
    } else {
        save_step(save_pass(parts, (upto - 1) as nat), parts[upto - 1])
    }
}

/// What the text of a save file holds. Each `@` starts the section of one
/// node: the number of the node, and from the next line on its program.
pub open spec fn spec_parse_save(src: Seq<char>) -> SaveModel {
    let parts = spec_split_on(src, '@');
    save_pass(parts, parts.len())
}

/// Reads the number of the node that a section is for.
pub fn read_section_node(section: &Vec<char>) -> (r: Option<usize>)
    ensures
        r == section_node(section@),
{
    let mut j: usize = 0;
    while j < section.len() && is_numeric(section[j])
        invariant
            j <= section.len(),
            numeric_run(section@, 0) == numeric_run(section@, j as int),
        decreases section.len() - j,
    {
        j += 1;
    }
    let digits = string_of(section, 0, j);
    assert(section@.subrange(0, j as int) == section@.take(j as int));
    match parse_unsigned(digits.as_str()) {
        Some(num) => if num < KEY_LIMIT {
            Some(num)
        } else {
            None
        },
        None => None,
    }
}

/// Takes the text of the program out of a section.
pub fn read_section_source(section: &Vec<char>) -> (r: String)
    ensures
        r@ == section_source(section@),
{
    let mut k: usize = 0;
    while k < section.len() && section[k] != '\n'
        invariant
            k <= section.len(),
            line_end(section@, 0) == line_end(section@, k as int),
        decreases section.len() - k,
    {
        k += 1;
    }
    if k < section.len() {
        let out = string_of(section, k + 1, section.len());
        assert(section@.subrange(k + 1, section@.len() as int) == section@.skip(k + 1));
        out
    } else {
        String::new()
    }
}

/// Reads the text of a save file: the programs of a machine, by node. Where
/// a program has errors, the result is the errors of every such program, by
/// node. A section whose number is not below [`KEY_LIMIT`] is passed over,
/// as one without a number is.
pub fn parse_save(src: &str) -> (r: Result<Save, SaveErrors>)
    ensures
        match r {
            Ok(save) => !spec_parse_save(src@).has_errors() && programs(save) == spec_parse_save(
                src@,
            ).programs,
            Err(errors) => spec_parse_save(src@).has_errors() && error_lists(errors)
                == spec_parse_save(src@).errors,
        },
{
    let mut save = save_new();
    let mut errors = save_errors_new();
    let mut failed = false;
    let chars = chars_of(src);
    let parts = split_on(&chars, '@');
    let ghost all = spec_split_on(src@, '@');
    assert(char_seqs(parts@).len() == all.len() && all.len() >= 1);
    let mut i: usize = 1;
    while i < parts.len()
        invariant
            1 <= i <= parts.len(),
            char_seqs(parts@) == all,
            programs(save) == save_pass(all, i as nat).programs,
            error_lists(errors) == save_pass(all, i as nat).errors,
            failed == save_pass(all, i as nat).has_errors(),
        decreases parts.len() - i,
    {
        let ghost before = save_pass(all, i as nat);
        assert(all[i as int] == parts@[i as int]@);
        if let Some(num) = read_section_node(&parts[i]) {
            let prog_src = read_section_source(&parts[i]);
            match parse_program(prog_src.as_str()) {
                Ok(prog) => {
                    save_insert(&mut save, num, prog);
                    assert(save_pass(all, (i + 1) as nat).errors == before.errors);
                },
                Err(errs) => {
                    save_errors_insert(&mut errors, num, errs);
                    failed = true;
                    assert(save_pass(all, (i + 1) as nat).errors.contains_key(num));
                },
            }
        }
        i += 1;
    }
    if failed {
        Err(errors)
    } else {
        Ok(save)
    }
}

} // verus!
