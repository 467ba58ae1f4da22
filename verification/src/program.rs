//! Standalone shell script programs: single files installed under a
//! programs directory, with interpreter detection from the shebang line
//! and a ranked keyword search over the installed set.

use vstd::prelude::*;

use crate::errors::SpmError;
use crate::shell::ShellType;
use crate::strutil::contains_substr;
use crate::strutil::has_substr;
use crate::strutil::last_path_segment;
use crate::strutil::last_segment;
use crate::strutil::lower_chars;
use crate::strutil::lower_str;
use crate::strutil::normal_name;
use crate::strutil::split_chars;
use crate::strutil::starts_with;
use crate::strutil::starts_with_str;
use crate::strutil::stem_of;
use crate::strutil::str_eq;
use crate::strutil::views_of;

verus! {

/// The interpreter a script's first line declares: a `#!` line naming
/// bash, zsh or cmd selects that shell, anything else falls back to sh.
pub open spec fn spec_detect_interpreter(content: Seq<char>) -> ShellType {
    let first = split_chars(content, '\n')[0];
    if starts_with(first, "#!"@) && has_substr(first, "bash"@) {
        ShellType::Bash
    } else if starts_with(first, "#!"@) && has_substr(first, "zsh"@) {
        ShellType::Zsh
    } else if starts_with(first, "#!"@) && has_substr(first, "cmd"@) {
        ShellType::Cmd
    } else {
        ShellType::Sh
    }
}

/// Detect the interpreter from a script's shebang line.
pub fn detect_interpreter_from_content(content: &str) -> (r: ShellType)
    ensures
        r == spec_detect_interpreter(content@),
{
    let lines = crate::strutil::split_str(content, '\n');
    let first = &lines[0];
    proof {
        assert(views_of(lines@)[0] == lines@[0]@);
    }
    if starts_with_str(first.as_str(), "#!") {
        if contains_substr(first.as_str(), "bash") {
            ShellType::Bash
        } else if contains_substr(first.as_str(), "zsh") {
            ShellType::Zsh
        } else if contains_substr(first.as_str(), "cmd") {
            ShellType::Cmd
        } else {
            ShellType::Sh
        }
    } else {
        ShellType::Sh
    }
}

/// A standalone shell script program.
#[derive(Debug)]
pub struct Program {
    /// The program name, derived from its file name.
    pub name: String,
    /// The installed script file, when the program came from disk.
    pub path_to_program: Option<String>,
    /// The interpreter the script declares.
    pub interpreter: ShellType,
}

impl Clone for Program {
    /// Copies every field.
    fn clone(&self) -> (res: Self)
        ensures
            res == *self,
    {
        Program {
            name: self.name.clone(),
            path_to_program: match &self.path_to_program {
                Some(p) => Some(p.clone()),
                None => None,
            },
            interpreter: self.interpreter,
        }
    }
}

impl Program {
    /// A new program that does not exist on disk yet.
    pub fn new(name: String, interpreter: ShellType) -> (r: Program)
        ensures
            r.name == name,
            r.path_to_program is None,
            r.interpreter == interpreter,
    {
        Program { name, path_to_program: None, interpreter }
    }

    /// Build a program from a script file: the name is the file name
    /// without its extension and the interpreter comes from the shebang.
    /// The caller reports whether the path is a file and hands over the
    /// file's contents.
    pub fn from_file(file_path: &str, is_file: bool, content: &str) -> (r: Result<
        Program,
        SpmError,
    >)
        ensures
            match r {
                Ok(p) => {
                    &&& is_file
                    &&& last_path_segment(file_path@) matches Some(seg) && p.name@ == stem_of(seg)
                    &&& (p.path_to_program matches Some(q) && q@ == file_path@)
                    &&& p.interpreter == spec_detect_interpreter(content@)
                },
                Err(e) => {
                    &&& e == SpmError::InvalidInput
                    &&& (!is_file || last_path_segment(file_path@) is None)
                },
            },
    {
        if !is_file {
            return Err(SpmError::InvalidInput);
        }
        let seg = match last_segment(file_path) {
            Some(s) => s,
            None => {
                return Err(SpmError::InvalidInput);
            },
        };
        let name = crate::strutil::file_stem(seg.as_str());
        let interpreter = detect_interpreter_from_content(content);
        Ok(Program { name, path_to_program: Some(file_path.to_owned()), interpreter })
    }

    /// The program name.
    pub fn get_name(&self) -> (r: &str)
        ensures
            r@ == self.name@,
    {
        self.name.as_str()
    }

    /// The installed script file, if any.
    pub fn get_program_path(&self) -> (r: Option<&str>)
        ensures
            match r {
                Some(p) => self.path_to_program matches Some(q) && q@ == p@,
                None => self.path_to_program is None,
            },
    {
        match &self.path_to_program {
            Some(p) => Some(p.as_str()),
            None => None,
        }
    }

    /// The interpreter the script declares.
    pub fn get_interpreter(&self) -> (r: &ShellType)
        ensures
            *r == self.interpreter,
    {
        &self.interpreter
    }
}

/// The first installed program with the given name, if any.
pub open spec fn find_program(programs: Seq<Program>, name: Seq<char>) -> Option<int>
    decreases programs.len(),
{
    if programs.len() == 0 {
        None
    } else if programs[0].name@ == name {
        Some(0)
    } else {
        match find_program(programs.skip(1), name) {
            Some(i) => Some(i + 1),
            None => None,
        }
    }
}

/// A found index is in range, matches, and is the first match.
pub proof fn lemma_find_program_props(programs: Seq<Program>, name: Seq<char>)
    ensures
        match find_program(programs, name) {
            Some(i) => 0 <= i < programs.len() && programs[i].name@ == name,
            None => forall|j: int|
                0 <= j < programs.len() ==> #[trigger] programs[j].name@ != name,
        },
    decreases programs.len(),
{
    if programs.len() != 0 {
        lemma_find_program_props(programs.skip(1), name);
        assert(forall|j: int|
            1 <= j < programs.len() ==> programs[j] == programs.skip(1)[j - 1]);
    }
}

/// If position `i` holds the name and nothing before it does, the search
/// finds exactly `i`.
proof fn lemma_find_program_first(programs: Seq<Program>, name: Seq<char>, i: int)
    requires
        0 <= i < programs.len(),
        programs[i].name@ == name,
        forall|j: int| 0 <= j < i ==> #[trigger] programs[j].name@ != name,
    ensures
        find_program(programs, name) == Some(i),
    decreases programs.len(),
{
    if i == 0 {
    } else {
        assert(forall|j: int|
            0 <= j < programs.skip(1).len() ==> programs.skip(1)[j] == programs[j + 1]);
        lemma_find_program_first(programs.skip(1), name, i - 1);
    }
}

/// The match score of a program against a search text: an exact
/// case-insensitive name match scores 2, else one point for every
/// non-empty keyword contained in the lowercased name.
pub open spec fn prog_score(p: Program, kw: Seq<char>) -> nat {
    if lower_chars(p.name@) == lower_chars(kw) {
        2
    } else {
        prog_word_score(crate::strutil::split_words(kw), lower_chars(p.name@))
    }
}

/// One point for every non-empty keyword found inside the name.
pub open spec fn prog_word_score(words: Seq<Seq<char>>, name: Seq<char>) -> nat
    decreases words.len(),
{
    if words.len() == 0 {
        0
    } else {
        (if words[0].len() > 0 && has_substr(name, words[0]) {
            1nat
        } else {
            0nat
        }) + prog_word_score(words.skip(1), name)
    }
}

/// Whether a program scores exactly `s` against the search text.
pub open spec fn prog_score_pred(kw: Seq<char>, s: nat) -> spec_fn(Program) -> bool {
    |p: Program| prog_score(p, kw) == s
}

/// The programs scoring exactly `s` down to 1, bucket by bucket, ties in
/// scan order.
pub open spec fn prog_ranked_from(programs: Seq<Program>, kw: Seq<char>, s: nat) -> Seq<Program>
    decreases s,
{
    if s == 0 {
        Seq::<Program>::empty()
    } else {
        programs.filter(prog_score_pred(kw, s)) + prog_ranked_from(programs, kw, (s - 1) as nat)
    }
}

/// The ranked result of a program keyword search.
pub open spec fn spec_program_search(programs: Seq<Program>, kw: Seq<char>) -> Seq<Program> {
    prog_ranked_from(programs, kw, (crate::strutil::split_words(kw).len() + 2) as nat)
}

/// The word score is bounded by one point per keyword.
proof fn lemma_prog_word_score_bound(words: Seq<Seq<char>>, name: Seq<char>)
    ensures
        prog_word_score(words, name) <= words.len(),
    decreases words.len(),
{
    if words.len() != 0 {
        lemma_prog_word_score_bound(words.skip(1), name);
    }
}

/// An empty store ranks to an empty result.
proof fn lemma_prog_ranked_empty(kw: Seq<char>, s: nat)
    ensures
        prog_ranked_from(Seq::<Program>::empty(), kw, s) =~= Seq::<Program>::empty(),
    decreases s,
{
    reveal(Seq::filter);
    if s != 0 {
        lemma_prog_ranked_empty(kw, (s - 1) as nat);
    }
}

/// A split yields at most one piece more than the text has characters.
proof fn lemma_split_len_prog(s: Seq<char>, sep: char)
    ensures
        split_chars(s, sep).len() <= s.len() + 1,
    decreases s.len(),
{
    if s.len() != 0 {
        lemma_split_len_prog(s.skip(1), sep);
    }
}

/// Compute the match score of one program.
fn prog_score_of(p: &Program, keywords: &str, words: &Vec<String>) -> (r: usize)
    requires
        views_of(words@) == crate::strutil::split_words(keywords@),
        words@.len() + 2 < usize::MAX,
    ensures
        r == prog_score(*p, keywords@),
        r <= words@.len() + 2,
{
    proof {
        lemma_prog_word_score_bound(
            crate::strutil::split_words(keywords@),
            lower_chars(p.name@),
        );
    }
    let name_lower = lower_str(p.name.as_str());
    let kw_lower = lower_str(keywords);
    if str_eq(name_lower.as_str(), kw_lower.as_str()) {
        return 2;
    }
    let ghost ws = crate::strutil::split_words(keywords@);
    let mut score: usize = 0;
    let mut j: usize = 0;
    proof {
        assert(ws.skip(0) =~= ws);
    }
    while j < words.len()
        invariant
            0 <= j <= words@.len(),
            words@.len() + 2 < usize::MAX,
            ws == crate::strutil::split_words(keywords@),
            ws == views_of(words@),
            ws.len() == words@.len(),
            name_lower@ == lower_chars(p.name@),
            score <= j,
            prog_word_score(ws, name_lower@) == score + prog_word_score(
                ws.skip(j as int),
                name_lower@,
            ),
        decreases words@.len() - j,
    {
        let w = &words[j];
        proof {
            assert(ws.skip(j as int)[0] == ws[j as int]);
            assert(ws[j as int] == words@[j as int]@);
            assert(ws.skip(j as int).skip(1) =~= ws.skip(j + 1));
        }
        if w.as_str().unicode_len() > 0 {
            if contains_substr(name_lower.as_str(), w.as_str()) {
                score += 1;
            }
        }
        j += 1;
    }
    proof {
        assert(ws.skip(ws.len() as int).len() == 0);
    }
    score
}

/// What carrying out a program installation on disk requires.
#[derive(Debug)]
pub struct ProgramInstallPlan {
    /// The file the script is copied to, marked executable afterwards.
    pub destination: String,
}

/// What carrying out a program uninstallation on disk requires.
#[derive(Debug)]
pub struct ProgramUninstallPlan {
    /// The script file to delete.
    pub program_path: String,
}

/// The installed-program registry over a fixed root directory.
#[derive(Debug)]
pub struct ProgramManager {
    /// The root directory of the manager, typically `~/.spm`.
    pub root_directory: String,
    /// Whether the programs directory under the root exists.
    pub store_present: bool,
    /// The scanned programs, in scan order.
    pub programs: Vec<Program>,
}

impl ProgramManager {
    /// A manager over the given root, with nothing scanned yet.
    pub fn new(root_directory: String) -> (r: ProgramManager)
        ensures
            r.root_directory == root_directory,
            !r.store_present,
            r.programs@ =~= Seq::<Program>::empty(),
    {
        ProgramManager { root_directory, store_present: false, programs: Vec::new() }
    }

    /// The directory PATH-exposed executables live in.
    pub fn get_bin_directory(&self) -> (r: String)
        ensures
            r@ == self.root_directory@ + "/bin"@,
    {
        let mut r = self.root_directory.clone();
        r.append("/bin");
        proof {
            reveal_strlit("/bin");
        }
        r
    }

    /// The directory installed programs live in.
    pub fn access_program_installation_directory(&self) -> (r: String)
        ensures
            r@ == self.root_directory@ + "/programs"@,
    {
        let mut r = self.root_directory.clone();
        r.append("/programs");
        proof {
            reveal_strlit("/programs");
        }
        r
    }

    /// Record that the programs directory exists (or does not).
    pub fn mark_store_present(&mut self, present: bool)
        ensures
            final(self).root_directory == old(self).root_directory,
            final(self).store_present == present,
            final(self).programs == old(self).programs,
    {
        self.store_present = present;
    }

    /// Record one scanned program, in scan order.
    pub fn record_scanned_program(&mut self, program: Program)
        ensures
            final(self).root_directory == old(self).root_directory,
            final(self).store_present == old(self).store_present,
            final(self).programs@ =~= old(self).programs@.push(program),
    {
        self.programs.push(program);
    }

    /// Every scanned program.  Fails when the programs directory does
    /// not exist.
    pub fn get_installed_programs(&self) -> (r: Result<Vec<Program>, SpmError>)
        ensures
            match r {
                Ok(list) => self.store_present && list@ =~= self.programs@,
                Err(e) => !self.store_present && e == SpmError::StoreMissing,
            },
    {
        if !self.store_present {
            return Err(SpmError::StoreMissing);
        }
        let mut list: Vec<Program> = Vec::new();
        let mut i: usize = 0;
        while i < self.programs.len()
            invariant
                0 <= i <= self.programs@.len(),
                list@ =~= self.programs@.take(i as int),
            decreases self.programs@.len() - i,
        {
            list.push(self.programs[i].clone());
            proof {
                assert(self.programs@.take(i + 1) =~= self.programs@.take(i as int).push(
                    self.programs@[i as int],
                ));
            }
            i += 1;
        }
        proof {
            assert(self.programs@.take(self.programs@.len() as int) =~= self.programs@);
        }
        Ok(list)
    }

    /// Retrieve an installed program by exact name, first match in scan
    /// order.
    pub fn get_program_by_name(&self, program_name: String) -> (r: Result<Program, SpmError>)
        ensures
            match r {
                Ok(p) => self.store_present && (find_program(self.programs@, program_name@)
                    matches Some(i) && p == self.programs@[i]),
                Err(e) => if !self.store_present {
                    e == SpmError::StoreMissing
                } else {
                    find_program(self.programs@, program_name@) is None && e
                        == SpmError::ProgramNotFound
                },
            },
    {
        if !self.store_present {
            return Err(SpmError::StoreMissing);
        }
        let mut i: usize = 0;
        while i < self.programs.len()
            invariant
                0 <= i <= self.programs@.len(),
                self.store_present,
                forall|j: int| 0 <= j < i ==> #[trigger] self.programs@[j].name@ != program_name@,
            decreases self.programs@.len() - i,
        {
            let p = &self.programs[i];
            if str_eq(p.name.as_str(), program_name.as_str()) {
                proof {
                    lemma_find_program_first(self.programs@, program_name@, i as int);
                }
                return Ok(p.clone());
            }
            i += 1;
        }
        proof {
            lemma_find_program_props(self.programs@, program_name@);
            match find_program(self.programs@, program_name@) {
                Some(k) => {
                    assert(self.programs@[k].name@ != program_name@);
                },
                None => {},
            }
        }
        Err(SpmError::ProgramNotFound)
    }

    /// Search the installed programs by comma-separated keywords: every
    /// program with a positive match score, by descending score, ties in
    /// scan order.  A missing programs directory yields an empty result.
    #[verifier::rlimit(60)]
    pub fn keyword_search(&self, keywords: &str) -> (r: Result<Vec<Program>, SpmError>)
        requires
            keywords@.len() * 2 + 8 < usize::MAX,
        ensures
            r matches Ok(list) && list@ =~= spec_program_search(
                if self.store_present {
                    self.programs@
                } else {
                    Seq::<Program>::empty()
                },
                keywords@,
            ),
    {
        let ghost kw = keywords@;
        if !self.store_present {
            proof {
                lemma_prog_ranked_empty(kw, (crate::strutil::split_words(kw).len() + 2) as nat);
            }
            return Ok(Vec::new());
        }
        let words = crate::strutil::split_keywords(keywords);
        proof {
            lemma_split_len_prog(kw, ',');
            assert(words@.len() <= kw.len() + 1);
        }
        let maxs: usize = words.len() + 2;
        let mut results: Vec<Program> = Vec::new();
        let mut sc: usize = maxs;
        proof {
            assert(results@ =~= Seq::<Program>::empty());
        }
        while sc >= 1
            invariant
                0 <= sc <= maxs,
                self.store_present,
                views_of(words@) == crate::strutil::split_words(kw),
                maxs == words@.len() + 2,
                keywords@ == kw,
                words@.len() + 2 < usize::MAX,
                prog_ranked_from(self.programs@, kw, maxs as nat) =~= results@ + prog_ranked_from(
                    self.programs@,
                    kw,
                    sc as nat,
                ),
            decreases sc,
        {
            let ghost base = results@;
            let mut j: usize = 0;
            proof {
                reveal(Seq::filter);
                assert(self.programs@.take(0).filter(prog_score_pred(kw, sc as nat)) =~= Seq::<
                    Program,
                >::empty());
                assert(base + Seq::<Program>::empty() =~= base);
            }
            while j < self.programs.len()
                invariant
                    0 <= j <= self.programs@.len(),
                    1 <= sc <= maxs,
                    views_of(words@) == crate::strutil::split_words(kw),
                    maxs == words@.len() + 2,
                    keywords@ == kw,
                    words@.len() + 2 < usize::MAX,
                    prog_ranked_from(self.programs@, kw, maxs as nat) =~= base + prog_ranked_from(
                        self.programs@,
                        kw,
                        sc as nat,
                    ),
                    results@ =~= base + self.programs@.take(j as int).filter(
                        prog_score_pred(kw, sc as nat),
                    ),
                decreases self.programs@.len() - j,
            {
                let s_j = prog_score_of(&self.programs[j], keywords, &words);
                let ghost pred = prog_score_pred(kw, sc as nat);
                proof {
                    reveal(Seq::filter);
                    assert(self.programs@.take(j + 1).drop_last() =~= self.programs@.take(
                        j as int,
                    ));
                    assert(self.programs@.take(j + 1).last() == self.programs@[j as int]);
                    assert(s_j == prog_score(self.programs@[j as int], kw));
                }
                if s_j == sc {
                    results.push(self.programs[j].clone());
                    proof {
                        assert(pred(self.programs@[j as int]));
                        assert(self.programs@.take(j + 1).filter(pred) =~= self.programs@.take(
                            j as int,
                        ).filter(pred).push(self.programs@[j as int]));
                        assert((base + self.programs@.take(j as int).filter(pred)).push(
                            self.programs@[j as int],
                        ) =~= base + self.programs@.take(j + 1).filter(pred));
                    }
                } else {
                    proof {
                        assert(!pred(self.programs@[j as int]));
                        assert(self.programs@.take(j + 1).filter(pred) =~= self.programs@.take(
                            j as int,
                        ).filter(pred));
                    }
                }
                j += 1;
            }
            proof {
                assert(self.programs@.take(self.programs@.len() as int) =~= self.programs@);
                assert(prog_ranked_from(self.programs@, kw, sc as nat) == self.programs@.filter(
                    prog_score_pred(kw, sc as nat),
                ) + prog_ranked_from(self.programs@, kw, (sc - 1) as nat));
            }
            sc = sc - 1;
        }
        proof {
            assert(prog_ranked_from(self.programs@, kw, 0) =~= Seq::<Program>::empty());
            assert(results@ + Seq::<Program>::empty() =~= results@);
        }
        Ok(results)
    }

    /// Generate the contents of a new program script.
    pub fn create_program(&self, program: &Program, path_is_dir: bool) -> (r: Result<
        String,
        SpmError,
    >)
        ensures
            match r {
                Ok(contents) => !path_is_dir && contents@ == crate::shell::shell_shebang(
                    program.interpreter,
                ) + "\n\nmain() {\n    echo \"Hello from "@ + program.name@
                    + "!\"\n}\n\nmain \"$@\""@,
                Err(e) => path_is_dir && e == SpmError::NotADirectory,
            },
    {
        if path_is_dir {
            return Err(SpmError::NotADirectory);
        }
        let mut contents = program.interpreter.get_shebang().to_owned();
        contents.append("\n\nmain() {\n    echo \"Hello from ");
        contents.append(program.name.as_str());
        contents.append("!\"\n}\n\nmain \"$@\"");
        Ok(contents)
    }

    /// Plan the installation of a script file: it must be a file with the
    /// `.sh` extension, and an occupied destination is refused unless
    /// forced.
    pub fn install_program(
        &self,
        path_to_program: &str,
        is_file: bool,
        destination_occupied: bool,
        force: bool,
    ) -> (r: Result<ProgramInstallPlan, SpmError>)
        ensures
            match r {
                Ok(plan) => {
                    &&& is_file
                    &&& last_path_segment(path_to_program@) matches Some(seg)
                        && crate::strutil::ends_with(seg, ".sh"@) && seg.len() >= 4
                        && plan.destination@ == self.root_directory@ + "/programs"@ + "/"@ + seg
                    &&& !(destination_occupied && !force)
                },
                Err(e) => if !is_file {
                    e == SpmError::InvalidInput
                } else if !(last_path_segment(path_to_program@) matches Some(seg)
                    && crate::strutil::ends_with(seg, ".sh"@) && seg.len() >= 4) {
                    e == SpmError::InvalidInput
                } else {
                    destination_occupied && !force && e == SpmError::AlreadyInstalled
                },
            },
    {
        if !is_file {
            return Err(SpmError::InvalidInput);
        }
        let seg = match last_segment(path_to_program) {
            Some(s) => s,
            None => {
                return Err(SpmError::InvalidInput);
            },
        };
        if !(crate::strutil::ends_with_str(seg.as_str(), ".sh") && seg.as_str().unicode_len()
            >= 4) {
            return Err(SpmError::InvalidInput);
        }
        if destination_occupied && !force {
            return Err(SpmError::AlreadyInstalled);
        }
        let mut destination = self.access_program_installation_directory();
        destination.append("/");
        destination.append(seg.as_str());
        Ok(ProgramInstallPlan { destination })
    }

    /// Uninstall a program by name: resolve it, hand back its file for
    /// deletion, and drop the entry from the store.  A program without a
    /// recorded path cannot be uninstalled.  The entry leaves the scanned
    /// state even if the caller's deletion then fails, so the state
    /// describes the disk again only after a rescan.
    pub fn uninstall_program_by_name(&mut self, program_name: String) -> (r: Result<
        ProgramUninstallPlan,
        SpmError,
    >)
        ensures
            match r {
                Ok(plan) => old(self).store_present && (find_program(
                    old(self).programs@,
                    program_name@,
                ) matches Some(i) && old(self).programs@[i].path_to_program matches Some(p)
                    && plan.program_path@ == p@ && final(self).programs@ == old(
                    self,
                ).programs@.remove(i)) && final(self).root_directory == old(self).root_directory
                    && final(self).store_present == old(self).store_present,
                Err(e) => *final(self) == *old(self) && (if !old(self).store_present {
                    e == SpmError::StoreMissing
                } else {
                    match find_program(old(self).programs@, program_name@) {
                        Some(i) => old(self).programs@[i].path_to_program is None && e
                            == SpmError::InvalidInput,
                        None => e == SpmError::ProgramNotFound,
                    }
                }),
            },
    {
        if !self.store_present {
            return Err(SpmError::StoreMissing);
        }
        let ghost progs = self.programs@;
        let mut i: usize = 0;
        while i < self.programs.len()
            invariant
                0 <= i <= self.programs@.len(),
                progs == self.programs@,
                *self == *old(self),
                self.store_present,
                forall|j: int| 0 <= j < i ==> #[trigger] progs[j].name@ != program_name@,
            decreases self.programs@.len() - i,
        {
            let p = &self.programs[i];
            if str_eq(p.name.as_str(), program_name.as_str()) {
                proof {
                    lemma_find_program_first(progs, program_name@, i as int);
                }
                match &p.path_to_program {
                    Some(_) => {},
                    None => {
                        return Err(SpmError::InvalidInput);
                    },
                }
                let removed = self.programs.remove(i);
                let program_path = match removed.path_to_program {
                    Some(p) => p,
                    None => {
                        proof {
                            assert(false);
                        }
                        return Err(SpmError::InvalidInput);
                    },
                };
                return Ok(ProgramUninstallPlan { program_path });
            }
            i += 1;
        }
        proof {
            lemma_find_program_props(progs, program_name@);
            match find_program(progs, program_name@) {
                Some(k) => {
                    assert(progs[k].name@ != program_name@);
                },
                None => {},
            }
        }
        Err(SpmError::ProgramNotFound)
    }
}

/// Validate a user's 1-based pick among search candidates, yielding the
/// 0-based index; anything out of range is an ambiguous selection.
pub fn select_candidate(selection: usize, candidate_count: usize) -> (r: Result<usize, SpmError>)
    ensures
        match r {
            Ok(i) => 1 <= selection <= candidate_count && i == selection - 1,
            Err(e) => (selection < 1 || selection > candidate_count) && e
                == SpmError::AmbiguousSelection,
        },
{
    if selection < 1 || selection > candidate_count {
        Err(SpmError::AmbiguousSelection)
    } else {
        Ok(selection - 1)
    }
}

/// Normalize a program name exactly as package names are normalized.
pub fn normalize_program_name(name: &str) -> (r: String)
    ensures
        r@ == normal_name(name@),
{
    crate::strutil::normalize_chars(name)
}

} // verus!
