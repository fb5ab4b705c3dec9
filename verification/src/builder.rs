use vstd::prelude::*;

verus! {

/// The attribute options of one shell function: the command template whose
/// words become the program and its leading arguments, and whether failures
/// abort the caller.
pub struct Attributes {
    pub cmd: String,
    pub no_panic: bool,
}

/// The command template used when none is given: the script is handed to
/// bash.
fn default_cmd() -> (c: String)
    ensures
        c@ == "bash -c"@,
{
    "bash -c".to_owned()
}

impl Default for Attributes {
    /// By default the script runs under `bash -c` and failures abort.
    fn default() -> (a: Attributes)
        ensures
            a.cmd@ == "bash -c"@,
            !a.no_panic,
    {
        Attributes { cmd: default_cmd(), no_panic: false }
    }
}

/// The shape of what the caller receives: one value, a lazy stream of
/// values, a materialized list, or nothing.
#[derive(Clone, Copy, PartialEq, Eq, Structural, Debug)]
pub enum OutputType {
    Scalar,
    Stream,
    Batch,
    Void,
}

impl Default for OutputType {
    /// A return type that is none of the recognized shapes is one value.
    fn default() -> (t: OutputType)
        ensures
            t == OutputType::Scalar,
    {
        OutputType::Scalar
    }
}

/// One cell of the execution matrix, named after the entry point that
/// realizes it.
#[derive(Clone, Copy, PartialEq, Eq, Structural, Debug)]
pub enum ExecuteFn {
    VoidNopanic,
    VoidPanic,
    VoidResult,
    ParseResult,
    ParsePanic,
    IterResultResult,
    IterResultNopanic,
    IterResultPanic,
    IterPanicResult,
    IterPanicPanic,
    IterNopanicResult,
    IterNopanicNopanic,
    VecResultResult,
    VecResultNopanic,
    VecResultPanic,
    VecPanicResult,
    VecPanicPanic,
    VecNopanicResult,
    VecNopanicNopanic,
}

/// One resolved execution request: the program to run, its arguments with
/// the script and every variable placeholder substituted, and the
/// environment bindings, names uppercased.
pub struct Invocation {
    pub program: String,
    pub args: Vec<String>,
    pub envs: Vec<(String, String)>,
}

/// The placeholder word that marks where the script goes in the argument
/// list.
pub open spec fn program_word() -> Seq<char> {
    "PROGRAM"@
}

/// Collects everything one shell function declares — its script, command
/// template, argument names and return shape — and resolves it into an
/// invocation and a cell of the execution matrix.
pub struct BlockBuilder {
    pub program: String,
    pub cmd: String,
    pub args: Vec<String>,
    pub envs: Vec<String>,
    pub output_type: OutputType,
    pub outer_result: bool,
    pub inner_result: bool,
    pub no_panic: bool,
}

impl Default for BlockBuilder {
    fn default() -> (b: BlockBuilder)
        ensures
            b.program@.len() == 0,
            b.cmd@.len() == 0,
            b.args@.len() == 0,
            b.envs@.len() == 0,
            b.output_type == OutputType::Scalar,
            !b.outer_result,
            !b.inner_result,
            !b.no_panic,
    {
        BlockBuilder {
            program: String::new(),
            cmd: String::new(),
            args: Vec::new(),
            envs: Vec::new(),
            output_type: OutputType::Scalar,
            outer_result: false,
            inner_result: false,
            no_panic: false,
        }
    }
}

/// What shellwords::split makes of a command line, or nothing when its
/// quotes do not match.
pub uninterp spec fn shell_split(s: Seq<char>) -> Option<Seq<Seq<char>>>;

/// Relies on shellwords::split: the command line is cut into words by the
/// Bourne shell's quoting rules, a computation on the characters alone, and
/// mismatched quotes are its one failure.
#[verifier::external_body]
fn split_command(s: &str) -> (r: Option<Vec<String>>)
    ensures
        r is Some <==> shell_split(s@) is Some,
        r matches Some(v) ==> Some(v.deep_view()) == shell_split(s@),
{
    shellwords::split(s).ok()
}

/// Relies on String::push: appends the one character.
#[verifier::external_body]
fn push_char(s: &mut String, c: char)
    ensures
        final(s)@ == old(s)@ + seq![c],
{
    s.push(c);
}

/// Appending one string to a vector appends its characters to the view of
/// views.
proof fn lemma_push_deep_view(pre: Vec<String>, post: Vec<String>, x: String)
    requires
        post@ == pre@.push(x),
    ensures
        post.deep_view() == pre.deep_view().push(x@),
{
    assert forall|i: int| 0 <= i < post.deep_view().len() implies #[trigger] post.deep_view()[i]
        == pre.deep_view().push(x@)[i] by {
        if i < pre@.len() {
            assert(post@[i] == pre@[i]);
        } else {
            assert(post@[i] == x);
        }
    }
    assert(post.deep_view() =~= pre.deep_view().push(x@));
}

/// Whether this word is the program placeholder.
fn is_program_word(a: &String) -> (b: bool)
    ensures
        b == (a@ == program_word()),
{
    proof {
        reveal_strlit("PROGRAM");
    }
    let w = String::from_str("PROGRAM");
    *a == w
}

/// An argument list with a program slot: the placeholder is appended when
/// the template did not place it itself.
pub open spec fn ensure_program_slot(words: Seq<Seq<char>>) -> Seq<Seq<char>> {
    if exists|i: int| 0 <= i < words.len() && words[i] == program_word() {
        words
    } else {
        words.push(program_word())
    }
}

/// Every program slot filled with the program text.
pub open spec fn fill_program_slots(args: Seq<Seq<char>>, program: Seq<char>) -> Seq<Seq<char>> {
    args.map_values(
        |a: Seq<char>|
            if a == program_word() {
                program
            } else {
                a
            },
    )
}

/// Every program slot removed.
pub open spec fn drop_program_slots(args: Seq<Seq<char>>) -> Seq<Seq<char>>
    decreases args.len(),
{
    if args.len() == 0 {
        Seq::empty()
    } else if args[0] == program_word() {
        drop_program_slots(args.skip(1))
    } else {
        seq![args[0]] + drop_program_slots(args.skip(1))
    }
}

/// A character uppercased when it is an ASCII lowercase letter, itself
/// otherwise.
pub open spec fn upper_char(c: char) -> char {
    if 97 <= c as u32 && c as u32 <= 122 {
        (((c as u32) - 32) as u8) as char
    } else {
        c
    }
}

/// A text with its ASCII lowercase letters uppercased.
pub open spec fn upper_chars(s: Seq<char>) -> Seq<char> {
    s.map_values(|c: char| upper_char(c))
}

/// Uppercases the ASCII lowercase letters of a text: how an argument name
/// becomes an environment variable name.
pub fn to_upper_ascii(s: &str) -> (r: String)
    ensures
        r@ == upper_chars(s@),
{
    let n = s.unicode_len();
    let mut r = String::new();
    let mut i: usize = 0;
    while i < n
        invariant
            0 <= i <= n == s@.len(),
            r@.len() == i,
            forall|t: int| 0 <= t < i ==> r@[t] == upper_char(s@[t]),
        decreases n - i,
    {
        let c = s.get_char(i);
        let u = c as u32;
        if 97 <= u && u <= 122 {
            let b: u8 = (u - 32) as u8;
            push_char(&mut r, b as char);
        } else {
            push_char(&mut r, c);
        }
        i = i + 1;
    }
    proof {
        assert(r@ =~= upper_chars(s@));
    }
    r
}

/// A text with every occurrence of the pattern replaced, scanning left to
/// right and never rescanning what a replacement produced.
pub open spec fn replace_chars(hay: Seq<char>, pat: Seq<char>, rep: Seq<char>) -> Seq<char>
    decreases hay.len(),
{
    if pat.len() == 0 || hay.len() == 0 {
        hay
    } else if pat.len() <= hay.len() && hay.take(pat.len() as int) == pat {
        rep + replace_chars(hay.skip(pat.len() as int), pat, rep)
    } else {
        seq![hay[0]] + replace_chars(hay.skip(1), pat, rep)
    }
}

/// Whether the pattern occurs at position `i` of the text.
fn matches_at(hay: &str, i: usize, pat: &str, m: usize) -> (b: bool)
    requires
        m == pat@.len(),
        i + m <= hay@.len(),
        i + m <= usize::MAX,
    ensures
        b == (hay@.subrange(i as int, i + pat@.len()) == pat@),
{
    let mut k: usize = 0;
    while k < m
        invariant
            0 <= k <= m == pat@.len(),
            i + m <= hay@.len(),
            i + m <= usize::MAX,
            forall|t: int| 0 <= t < k ==> hay@[i + t] == pat@[t],
        decreases m - k,
    {
        if hay.get_char(i + k) != pat.get_char(k) {
            proof {
                assert(hay@.subrange(i as int, i + pat@.len())[k as int] != pat@[k as int]);
            }
            return false;
        }
        k = k + 1;
    }
    proof {
        assert(hay@.subrange(i as int, i + pat@.len()) =~= pat@);
    }
    true
}

/// Replaces every occurrence of the pattern in the text.
pub fn replace_all(hay: &str, pat: &str, rep: &str) -> (r: String)
    requires
        pat@.len() > 0,
    ensures
        r@ == replace_chars(hay@, pat@, rep@),
{
    let n = hay.unicode_len();
    let m = pat.unicode_len();
    let mut out = String::new();
    let mut i: usize = 0;
    proof {
        assert(hay@.skip(0) =~= hay@);
    }
    while i < n
        invariant
            0 <= i <= n == hay@.len(),
            0 < m == pat@.len(),
            out@ + replace_chars(hay@.skip(i as int), pat@, rep@) == replace_chars(
                hay@,
                pat@,
                rep@,
            ),
        decreases n - i,
    {
        let ghost rest = hay@.skip(i as int);
        let here = if m <= n - i {
            matches_at(hay, i, pat, m)
        } else {
            false
        };
        proof {
            if m <= n - i {
                assert(rest.take(m as int) =~= hay@.subrange(i as int, i + m));
            }
        }
        if here {
            out.append(rep);
            proof {
                assert(rest.skip(m as int) =~= hay@.skip(i + m));
            }
            i = i + m;
        } else {
            let one = hay.substring_char(i, i + 1);
            out.append(one);
            proof {
                assert(one@ =~= seq![rest[0]]);
                assert(rest.skip(1) =~= hay@.skip(i + 1));
            }
            i = i + 1;
        }
    }
    proof {
        assert(hay@.skip(n as int) =~= Seq::<char>::empty());
    }
    out
}

/// The view of each environment binding.
pub open spec fn binding_views(envs: Seq<(String, String)>) -> Seq<(Seq<char>, Seq<char>)> {
    envs.map_values(|p: (String, String)| (p.0@, p.1@))
}

/// One binding substituted into an argument: every occurrence of the dollar
/// sign followed by the name becomes the value.
pub open spec fn subst_one(arg: Seq<char>, name: Seq<char>, value: Seq<char>) -> Seq<char> {
    replace_chars(arg, seq!['$'] + name, value)
}

/// All bindings substituted into an argument, first binding first.
pub open spec fn subst_all(arg: Seq<char>, envs: Seq<(Seq<char>, Seq<char>)>) -> Seq<char>
    decreases envs.len(),
{
    if envs.len() == 0 {
        arg
    } else {
        subst_all(subst_one(arg, envs[0].0, envs[0].1), envs.skip(1))
    }
}

/// Substitutes every binding into one argument.
pub fn substitute_arg(arg: &str, envs: &Vec<(String, String)>) -> (r: String)
    ensures
        r@ == subst_all(arg@, binding_views(envs@)),
{
    let ghost views = binding_views(envs@);
    let mut cur = arg.to_owned();
    let n = envs.len();
    let mut j: usize = 0;
    proof {
        assert(views.skip(0) =~= views);
    }
    while j < n
        invariant
            0 <= j <= n == envs@.len(),
            views == binding_views(envs@),
            subst_all(arg@, views) == subst_all(cur@, views.skip(j as int)),
        decreases n - j,
    {
        let ghost before = cur@;
        let mut pattern = String::from_str("$");
        proof {
            reveal_strlit("$");
            assert(pattern@ =~= seq!['$']);
        }
        pattern.append(envs[j].0.as_str());
        assert(pattern@ == seq!['$'] + envs@[j as int].0@);
        let next = replace_all(cur.as_str(), pattern.as_str(), envs[j].1.as_str());
        proof {
            assert(views[j as int] == (envs@[j as int].0@, envs@[j as int].1@));
            assert(next@ == subst_one(before, views[j as int].0, views[j as int].1));
            assert(views.skip(j as int).skip(1) =~= views.skip(j + 1));
        }
        cur = next;
        j = j + 1;
    }
    proof {
        assert(views.skip(n as int) =~= Seq::<(Seq<char>, Seq<char>)>::empty());
    }
    cur
}

/// The environment bindings an invocation carries: each argument name
/// uppercased, paired with its value.
pub open spec fn upper_bindings(names: Seq<String>, values: Seq<String>) -> Seq<
    (Seq<char>, Seq<char>),
> {
    Seq::new(names.len(), |i: int| (upper_chars(names[i]@), values[i]@))
}

/// The argument list after the program slots are resolved: filled with the
/// program when there is one, removed otherwise.
pub open spec fn resolved_args(b: BlockBuilder) -> Seq<Seq<char>> {
    if b.program@.len() > 0 {
        fill_program_slots(b.args.deep_view(), b.program@)
    } else {
        drop_program_slots(b.args.deep_view())
    }
}

impl BlockBuilder {
    pub fn new() -> (b: Self)
        ensures
            b.program@.len() == 0,
            b.cmd@.len() == 0,
            b.args@.len() == 0,
            b.envs@.len() == 0,
            b.output_type == OutputType::Scalar,
            !b.outer_result,
            !b.inner_result,
            !b.no_panic,
    {
        Self::default()
    }

    /// The script text that will take the program placeholder's position.
    pub fn with_program(self, program: String) -> (b: Self)
        ensures
            b.program == program,
            b.cmd == self.cmd,
            b.args == self.args,
            b.envs == self.envs,
            b.output_type == self.output_type,
            b.outer_result == self.outer_result,
            b.inner_result == self.inner_result,
            b.no_panic == self.no_panic,
    {
        Self { program, ..self }
    }

    /// Takes the command template apart: its first word is the program, the
    /// rest are leading arguments, and a program placeholder is appended
    /// when the template did not place one. A template with mismatched
    /// quotes, or without a single word, resolves to nothing.
    pub fn with_attrs(self, attrs: Attributes) -> (r: Option<Self>)
        ensures
            r is Some <==> (shell_split(attrs.cmd@) matches Some(w) && w.len() > 0),
            r matches Some(b) ==> {
                &&& (shell_split(attrs.cmd@) matches Some(w) && {
                    &&& b.cmd@ == w[0]
                    &&& b.args.deep_view() == ensure_program_slot(w.skip(1))
                })
                &&& b.no_panic == attrs.no_panic
                &&& b.program == self.program
                &&& b.envs == self.envs
                &&& b.output_type == self.output_type
                &&& b.outer_result == self.outer_result
                &&& b.inner_result == self.inner_result
            },
    {
        let words = match split_command(attrs.cmd.as_str()) {
            None => {
                return None;
            },
            Some(words) => words,
        };
        let count = words.len();
        if count == 0 {
            return None;
        }
        let ghost w = words.deep_view();
        let cmd = words[0].clone();
        let mut args: Vec<String> = Vec::new();
        let mut k: usize = 1;
        let mut has_slot = false;
        while k < count
            invariant
                1 <= k <= count == words@.len(),
                w == words.deep_view(),
                args.deep_view() =~= w.subrange(1, k as int),
                has_slot == exists|i: int| 1 <= i < k && w[i] == program_word(),
            decreases count - k,
        {
            let word = words[k].clone();
            proof {
                assert(w[k as int] == words@[k as int]@);
            }
            if is_program_word(&word) {
                has_slot = true;
                proof {
                    assert(w[k as int] == program_word());
                }
            }
            let ghost pre = args;
            let ghost pushed = word;
            args.push(word);
            proof {
                lemma_push_deep_view(pre, args, pushed);
                assert(args.deep_view() =~= w.subrange(1, k as int + 1));
            }
            k = k + 1;
        }
        proof {
            assert(args.deep_view() =~= w.skip(1));
        }
        if !has_slot {
            let slot = String::from_str("PROGRAM");
            args.push(slot);
            proof {
                assert forall|i: int| 0 <= i < w.skip(1).len() implies w.skip(1)[i]
                    != program_word() by {
                    assert(w.skip(1)[i] == w[i + 1]);
                }
                assert(args.deep_view() =~= w.skip(1).push(program_word()));
            }
        } else {
            proof {
                let i = choose|i: int| 1 <= i < count && w[i] == program_word();
                assert(w.skip(1)[i - 1] == program_word());
            }
        }
        Some(
            Self {
                cmd,
                args,
                no_panic: attrs.no_panic,
                ..self
            },
        )
    }

    /// The caller-supplied argument names, in order: each becomes one
    /// environment binding of the invocation.
    pub fn with_args(self, names: &Vec<String>) -> (b: Self)
        ensures
            b.envs.deep_view() == self.envs.deep_view() + names.deep_view(),
            b.program == self.program,
            b.cmd == self.cmd,
            b.args == self.args,
            b.output_type == self.output_type,
            b.outer_result == self.outer_result,
            b.inner_result == self.inner_result,
            b.no_panic == self.no_panic,
    {
        let mut b = self;
        let n = names.len();
        let mut k: usize = 0;
        let ghost start = b.envs.deep_view();
        while k < n
            invariant
                0 <= k <= n == names@.len(),
                b.envs.deep_view() =~= start + names.deep_view().subrange(0, k as int),
                b.program == self.program,
                b.cmd == self.cmd,
                b.args == self.args,
                b.output_type == self.output_type,
                b.outer_result == self.outer_result,
                b.inner_result == self.inner_result,
                b.no_panic == self.no_panic,
            decreases n - k,
        {
            let pulled = names[k].clone();
            let ghost pre = b.envs;
            let ghost pushed = pulled;
            b.envs.push(pulled);
            proof {
                assert(names.deep_view()[k as int] == names@[k as int]@);
                lemma_push_deep_view(pre, b.envs, pushed);
                assert(b.envs.deep_view() =~= start + names.deep_view().subrange(0, k as int + 1));
            }
            k = k + 1;
        }
        proof {
            assert(b.envs.deep_view() =~= start + names.deep_view());
        }
        b
    }

    /// The caller receives nothing.
    pub fn with_unit_return_type(&mut self)
        ensures
            final(self).output_type == OutputType::Void,
            final(self).program == old(self).program,
            final(self).cmd == old(self).cmd,
            final(self).args == old(self).args,
            final(self).envs == old(self).envs,
            final(self).outer_result == old(self).outer_result,
            final(self).inner_result == old(self).inner_result,
            final(self).no_panic == old(self).no_panic,
    {
        self.output_type = OutputType::Void;
    }

    /// The caller receives a materialized list, its items wrapped in
    /// results or not.
    pub fn with_vec_return_type(&mut self, inner_result: bool)
        ensures
            final(self).output_type == OutputType::Batch,
            final(self).inner_result == inner_result,
            final(self).program == old(self).program,
            final(self).cmd == old(self).cmd,
            final(self).args == old(self).args,
            final(self).envs == old(self).envs,
            final(self).outer_result == old(self).outer_result,
            final(self).no_panic == old(self).no_panic,
    {
        self.output_type = OutputType::Batch;
        self.inner_result = inner_result;
    }

    /// The caller receives a lazy stream, its items wrapped in results or
    /// not.
    pub fn with_iter_return_type(&mut self, inner_result: bool)
        ensures
            final(self).output_type == OutputType::Stream,
            final(self).inner_result == inner_result,
            final(self).program == old(self).program,
            final(self).cmd == old(self).cmd,
            final(self).args == old(self).args,
            final(self).envs == old(self).envs,
            final(self).outer_result == old(self).outer_result,
            final(self).no_panic == old(self).no_panic,
    {
        self.output_type = OutputType::Stream;
        self.inner_result = inner_result;
    }

    /// Whether the declared return type wraps the whole result in a
    /// `Result`.
    pub fn with_outer_result(&mut self, outer_result: bool)
        ensures
            final(self).outer_result == outer_result,
            final(self).program == old(self).program,
            final(self).cmd == old(self).cmd,
            final(self).args == old(self).args,
            final(self).envs == old(self).envs,
            final(self).output_type == old(self).output_type,
            final(self).inner_result == old(self).inner_result,
            final(self).no_panic == old(self).no_panic,
    {
        self.outer_result = outer_result;
    }

    /// Puts the program text into every placeholder slot of the argument
    /// list.
    pub fn add_program_to_args(&mut self)
        ensures
            final(self).args.deep_view() == fill_program_slots(
                old(self).args.deep_view(),
                old(self).program@,
            ),
            final(self).program == old(self).program,
            final(self).cmd == old(self).cmd,
            final(self).envs == old(self).envs,
            final(self).output_type == old(self).output_type,
            final(self).outer_result == old(self).outer_result,
            final(self).inner_result == old(self).inner_result,
            final(self).no_panic == old(self).no_panic,
    {
        let ghost before = self.args.deep_view();
        let n = self.args.len();
        let mut filled: Vec<String> = Vec::new();
        let mut k: usize = 0;
        while k < n
            invariant
                0 <= k <= n == self.args@.len(),
                before == self.args.deep_view(),
                filled.deep_view() =~= fill_program_slots(before, self.program@).subrange(
                    0,
                    k as int,
                ),
            decreases n - k,
        {
            let word = self.args[k].clone();
            proof {
                assert(before[k as int] == self.args@[k as int]@);
            }
            let ghost pre = filled;
            let replaced = if is_program_word(&word) {
                self.program.clone()
            } else {
                word
            };
            let ghost pushed = replaced;
            filled.push(replaced);
            proof {
                assert(fill_program_slots(before, self.program@)[k as int] == (
                if before[k as int] == program_word() {
                    self.program@
                } else {
                    before[k as int]
                }));
                lemma_push_deep_view(pre, filled, pushed);
                assert(filled.deep_view() =~= fill_program_slots(before, self.program@).subrange(
                    0,
                    k as int + 1,
                ));
            }
            k = k + 1;
        }
        proof {
            assert(filled.deep_view() =~= fill_program_slots(before, self.program@));
        }
        self.args = filled;
    }

    /// The cell of the execution matrix this builder selects.
    pub open spec fn spec_selected(&self) -> ExecuteFn {
        match self.output_type {
            OutputType::Void => if self.outer_result {
                ExecuteFn::VoidResult
            } else if self.no_panic {
                ExecuteFn::VoidNopanic
            } else {
                ExecuteFn::VoidPanic
            },
            OutputType::Scalar => if self.outer_result {
                ExecuteFn::ParseResult
            } else {
                ExecuteFn::ParsePanic
            },
            OutputType::Stream => if self.outer_result {
                if self.inner_result {
                    ExecuteFn::IterResultResult
                } else if self.no_panic {
                    ExecuteFn::IterResultNopanic
                } else {
                    ExecuteFn::IterResultPanic
                }
            } else {
                if self.inner_result {
                    if self.no_panic {
                        ExecuteFn::IterNopanicResult
                    } else {
                        ExecuteFn::IterPanicResult
                    }
                } else {
                    if self.no_panic {
                        ExecuteFn::IterNopanicNopanic
                    } else {
                        ExecuteFn::IterPanicPanic
                    }
                }
            },
            OutputType::Batch => if self.outer_result {
                if self.inner_result {
                    ExecuteFn::VecResultResult
                } else if self.no_panic {
                    ExecuteFn::VecResultNopanic
                } else {
                    ExecuteFn::VecResultPanic
                }
            } else {
                if self.inner_result {
                    if self.no_panic {
                        ExecuteFn::VecNopanicResult
                    } else {
                        ExecuteFn::VecPanicResult
                    }
                } else {
                    if self.no_panic {
                        ExecuteFn::VecNopanicNopanic
                    } else {
                        ExecuteFn::VecPanicPanic
                    }
                }
            },
        }
    }

    /// Picks the cell of the execution matrix that realizes the declared
    /// shape and failure policies.
    pub fn select_execute_fn(&self) -> (f: ExecuteFn)
        ensures
            f == self.spec_selected(),
    {
        match self.output_type {
            OutputType::Void => if self.outer_result {
                ExecuteFn::VoidResult
            } else if self.no_panic {
                ExecuteFn::VoidNopanic
            } else {
                ExecuteFn::VoidPanic
            },
            OutputType::Scalar => if self.outer_result {
                ExecuteFn::ParseResult
            } else {
                ExecuteFn::ParsePanic
            },
            OutputType::Stream => if self.outer_result {
                if self.inner_result {
                    ExecuteFn::IterResultResult
                } else if self.no_panic {
                    ExecuteFn::IterResultNopanic
                } else {
                    ExecuteFn::IterResultPanic
                }
            } else {
                if self.inner_result {
                    if self.no_panic {
                        ExecuteFn::IterNopanicResult
                    } else {
                        ExecuteFn::IterPanicResult
                    }
                } else {
                    if self.no_panic {
                        ExecuteFn::IterNopanicNopanic
                    } else {
                        ExecuteFn::IterPanicPanic
                    }
                }
            },
            OutputType::Batch => if self.outer_result {
                if self.inner_result {
                    ExecuteFn::VecResultResult
                } else if self.no_panic {
                    ExecuteFn::VecResultNopanic
                } else {
                    ExecuteFn::VecResultPanic
                }
            } else {
                if self.inner_result {
                    if self.no_panic {
                        ExecuteFn::VecNopanicResult
                    } else {
                        ExecuteFn::VecPanicResult
                    }
                } else {
                    if self.no_panic {
                        ExecuteFn::VecNopanicNopanic
                    } else {
                        ExecuteFn::VecPanicPanic
                    }
                }
            },
        }
    }

    /// Resolves the builder into one invocation: the program slots take the
    /// script, every binding's placeholder is substituted into every
    /// argument, and the bindings pair each uppercased name with its value.
    pub fn build(self, env_values: &Vec<String>) -> (inv: Invocation)
        requires
            env_values@.len() == self.envs@.len(),
        ensures
            inv.program == self.cmd,
            inv.envs@.len() == self.envs@.len(),
            forall|i: int|
                0 <= i < inv.envs@.len() ==> (#[trigger] inv.envs@[i]).0@ == upper_chars(
                    self.envs@[i]@,
                ) && inv.envs@[i].1 == env_values@[i],
            inv.args.deep_view().len() == resolved_args(self).len(),
            forall|i: int|
                0 <= i < inv.args.deep_view().len() ==> #[trigger] inv.args.deep_view()[i]
                    == subst_all(
                    resolved_args(self)[i],
                    upper_bindings(self.envs@, env_values@),
                ),
    {
        let mut b = self;
        let ghost initial = b;
        // Resolve the program slots.
        if !b.program.as_str().is_empty() {
            b.add_program_to_args();
        } else {
            let n = b.args.len();
            let ghost before = b.args.deep_view();
            let mut kept: Vec<String> = Vec::new();
            let ghost mut done: Seq<Seq<char>> = Seq::empty();
            let mut k: usize = 0;
            proof {
                assert(before.skip(0) =~= before);
            }
            while k < n
                invariant
                    0 <= k <= n == b.args@.len(),
                    before == b.args.deep_view(),
                    drop_program_slots(before) == done + drop_program_slots(
                        before.skip(k as int),
                    ),
                    kept.deep_view() =~= done,
                decreases n - k,
            {
                let ghost suffix = before.skip(k as int);
                proof {
                    assert(suffix[0] == before[k as int]);
                    assert(suffix.skip(1) =~= before.skip(k + 1));
                }
                let word = b.args[k].clone();
                if !is_program_word(&word) {
                    kept.push(word);
                    proof {
                        done = done.push(before[k as int]);
                        assert(drop_program_slots(suffix) == seq![suffix[0]]
                            + drop_program_slots(suffix.skip(1)));
                        assert(drop_program_slots(before) =~= done + drop_program_slots(
                            before.skip(k + 1),
                        ));
                    }
                } else {
                    proof {
                        assert(drop_program_slots(suffix) == drop_program_slots(suffix.skip(1)));
                    }
                }
                k = k + 1;
            }
            proof {
                assert(before.skip(n as int) =~= Seq::<Seq<char>>::empty());
                assert(kept.deep_view() =~= drop_program_slots(before));
            }
            b.args = kept;
        }
        assert(b.args.deep_view() == resolved_args(initial));
        // Pair each uppercased name with its value.
        let count = b.envs.len();
        let mut envs: Vec<(String, String)> = Vec::new();
        let mut k: usize = 0;
        while k < count
            invariant
                0 <= k <= count == b.envs@.len(),
                env_values@.len() == count,
                envs@.len() == k,
                forall|i: int|
                    0 <= i < k ==> (#[trigger] envs@[i]).0@ == upper_chars(b.envs@[i]@)
                        && envs@[i].1 == env_values@[i],
            decreases count - k,
        {
            let name = to_upper_ascii(b.envs[k].as_str());
            let value = env_values[k].clone();
            envs.push((name, value));
            k = k + 1;
        }
        proof {
            assert(binding_views(envs@) =~= upper_bindings(initial.envs@, env_values@));
        }
        // Substitute every binding into every argument.
        let total = b.args.len();
        let mut args: Vec<String> = Vec::new();
        let mut k: usize = 0;
        while k < total
            invariant
                0 <= k <= total == b.args@.len(),
                b.args.deep_view() == resolved_args(initial),
                binding_views(envs@) == upper_bindings(initial.envs@, env_values@),
                args.deep_view().len() == k,
                forall|i: int|
                    0 <= i < k ==> #[trigger] args.deep_view()[i] == subst_all(
                        resolved_args(initial)[i],
                        upper_bindings(initial.envs@, env_values@),
                    ),
            decreases total - k,
        {
            let ghost realized_view = subst_all(
                resolved_args(initial)[k as int],
                upper_bindings(initial.envs@, env_values@),
            );
            proof {
                assert(b.args.deep_view()[k as int] == b.args@[k as int]@);
            }
            let realized = substitute_arg(b.args[k].as_str(), &envs);
            let ghost prev = args.deep_view();
            args.push(realized);
            proof {
                assert(realized@ == realized_view);
                assert forall|i: int| 0 <= i < k + 1 implies #[trigger] args.deep_view()[i]
                    == subst_all(
                    resolved_args(initial)[i],
                    upper_bindings(initial.envs@, env_values@),
                ) by {
                    if i < k {
                        assert(args.deep_view()[i] == prev[i]);
                    } else {
                        assert(args.deep_view()[i] == realized@);
                    }
                }
            }
            k = k + 1;
        }
        Invocation { program: b.cmd, args, envs }
    }
}

} // verus!
