//! The launch options that a command line gives.
//!
//! The tokens after the program's name are read from left to right. A
//! recognised option takes its value from the next token or from behind its
//! equals sign, any other token that starts with a dash is passed over, and
//! what remains are the operands, from which the document to open is chosen.

use vstd::prelude::*;
use vstd::string::*;
use crate::text::{
    is_dashed, same_text, starts_with_dash, strip_prefix, stripped, text_of, texts,
};

verus! {

/// The options that a launch was given.
#[derive(Clone, Debug, PartialEq, Eq)]
pub struct CliOptions {
    /// The document to open on startup.
    pub file_path: Option<String>,
    /// The directory that bundle exports go to.
    pub bundle_dir: Option<String>,
    /// The principles document.
    pub principles_path: Option<String>,
    /// The output path.
    pub out_path: Option<String>,
}

/// The launch options as plain texts.
pub struct LaunchView {
    pub file_path: Option<Seq<char>>,
    pub bundle_dir: Option<Seq<char>>,
    pub principles_path: Option<Seq<char>>,
    pub out_path: Option<Seq<char>>,
}

/// One of the three options that take a value.
#[derive(Clone, Copy, Debug, PartialEq, Eq)]
pub enum LaunchField {
    BundleDir,
    PrinciplesPath,
    OutPath,
}

/// What a scan of tokens has found: the value of each option and the operands in order.
pub struct Scan {
    pub bundle_dir: Option<Seq<char>>,
    pub principles_path: Option<Seq<char>>,
    pub out_path: Option<Seq<char>>,
    pub positionals: Seq<Seq<char>>,
}

impl View for CliOptions {
    type V = LaunchView;

    open spec fn view(&self) -> LaunchView {
        LaunchView {
            file_path: text_of(self.file_path),
            bundle_dir: text_of(self.bundle_dir),
            principles_path: text_of(self.principles_path),
            out_path: text_of(self.out_path),
        }
    }
}

/// The flag that names an option when its value is the next token.
pub open spec fn flag_name(field: LaunchField) -> Seq<char> {
    match field {
        LaunchField::BundleDir => "--bundle-dir"@,
        LaunchField::PrinciplesPath => "--principles"@,
        LaunchField::OutPath => "--out"@,
    }
}

/// The flag with its equals sign, which the value follows within one token.
pub open spec fn assignment_prefix(field: LaunchField) -> Seq<char> {
    match field {
        LaunchField::BundleDir => "--bundle-dir="@,
        LaunchField::PrinciplesPath => "--principles="@,
        LaunchField::OutPath => "--out="@,
    }
}

/// The word that announces the document to open.
pub open spec fn open_word() -> Seq<char> {
    "open"@
}

/// The option that a token names, where the token is exactly a flag.
pub open spec fn named_option(token: Seq<char>) -> Option<LaunchField> {
    if token == flag_name(LaunchField::BundleDir) {
        Some(LaunchField::BundleDir)
    } else if token == flag_name(LaunchField::PrinciplesPath) {
        Some(LaunchField::PrinciplesPath)
    } else if token == flag_name(LaunchField::OutPath) {
        Some(LaunchField::OutPath)
    } else {
        None
    }
}

/// The option and value that a token of the form `--flag=value` gives.
pub open spec fn inline_option(token: Seq<char>) -> Option<(LaunchField, Seq<char>)> {
    if stripped(token, assignment_prefix(LaunchField::BundleDir)).is_some() {
        Some(
            (
                LaunchField::BundleDir,
                stripped(token, assignment_prefix(LaunchField::BundleDir)).unwrap(),
            ),
        )
    } else if stripped(token, assignment_prefix(LaunchField::PrinciplesPath)).is_some() {
        Some(
            (
                LaunchField::PrinciplesPath,
                stripped(token, assignment_prefix(LaunchField::PrinciplesPath)).unwrap(),
            ),
        )
    } else if stripped(token, assignment_prefix(LaunchField::OutPath)).is_some() {
        Some(
            (LaunchField::OutPath, stripped(token, assignment_prefix(LaunchField::OutPath)).unwrap()),
        )
    } else {
        None
    }
}

/// Whether a token is a flag without meaning here: it starts with a dash and
/// is neither a recognised flag nor a recognised assignment.
pub open spec fn is_unknown_flag(token: Seq<char>) -> bool {
    is_dashed(token) && named_option(token).is_none() && inline_option(token).is_none()
}

impl Scan {
    /// Nothing found.
    pub open spec fn empty() -> Scan {
        Scan {
            bundle_dir: None,
            principles_path: None,
            out_path: None,
            positionals: Seq::empty(),
        }
    }

    /// The value of one option.
    pub open spec fn get(self, field: LaunchField) -> Option<Seq<char>> {
        match field {
            LaunchField::BundleDir => self.bundle_dir,
            LaunchField::PrinciplesPath => self.principles_path,
            LaunchField::OutPath => self.out_path,
        }
    }

    /// This scan with `field` set to `value`, whatever it was.
    pub open spec fn assigned(self, field: LaunchField, value: Seq<char>) -> Scan {
        match field {
            LaunchField::BundleDir => Scan { bundle_dir: Some(value), ..self },
            LaunchField::PrinciplesPath => Scan { principles_path: Some(value), ..self },
            LaunchField::OutPath => Scan { out_path: Some(value), ..self },
        }
    }

    /// This scan with `field` set to `value` where it had none: how a scan of
    /// later tokens takes up an earlier value, which yields to a later one.
    pub open spec fn preceded_by(self, field: LaunchField, value: Seq<char>) -> Scan {
        if self.get(field).is_some() {
            self
        } else {
            self.assigned(field, value)
        }
    }

    /// This scan with one more operand in front.
    pub open spec fn preceded_by_operand(self, token: Seq<char>) -> Scan {
        Scan { positionals: seq![token] + self.positionals, ..self }
    }

    /// The scan of some tokens followed by the scan of those after them: the
    /// later value of each option stands, and the operands follow each other.
    pub open spec fn then_scan(self, later: Scan) -> Scan {
        Scan {
            bundle_dir: if later.bundle_dir.is_some() {
                later.bundle_dir
            } else {
                self.bundle_dir
            },
            principles_path: if later.principles_path.is_some() {
                later.principles_path
            } else {
                self.principles_path
            },
            out_path: if later.out_path.is_some() {
                later.out_path
            } else {
                self.out_path
            },
            positionals: self.positionals + later.positionals,
        }
    }
}

/// What the tokens give, read from left to right.
pub open spec fn scan(tokens: Seq<Seq<char>>) -> Scan
    decreases tokens.len(),
{
    if tokens.len() == 0 {
        Scan::empty()
    } else if named_option(tokens[0]).is_some() && tokens.len() >= 2 {
        scan(tokens.skip(2)).preceded_by(named_option(tokens[0]).unwrap(), tokens[1])
    } else if inline_option(tokens[0]).is_some() {
        scan(tokens.skip(1)).preceded_by(
            inline_option(tokens[0]).unwrap().0,
            inline_option(tokens[0]).unwrap().1,
        )
    } else if is_dashed(tokens[0]) {
        scan(tokens.skip(1))
    } else {
        scan(tokens.skip(1)).preceded_by_operand(tokens[0])
    }
}

/// Whether the tokens end where a token ends: the last of them is not a flag
/// that still waits for its value.
pub open spec fn ends_whole(tokens: Seq<Seq<char>>) -> bool
    decreases tokens.len(),
{
    if tokens.len() == 0 {
        true
    } else if named_option(tokens[0]).is_some() {
        tokens.len() >= 2 && ends_whole(tokens.skip(2))
    } else {
        ends_whole(tokens.skip(1))
    }
}

/// `k` is the place of the first `open` among the operands.
pub open spec fn is_first_open(operands: Seq<Seq<char>>, k: int) -> bool {
    &&& 0 <= k < operands.len()
    &&& operands[k] == open_word()
    &&& forall|j: int| 0 <= j < k ==> operands[j] != open_word()
}

/// The document that the operands ask for: the operand after the first
/// `open`, if there is an `open`; else the first operand.
pub open spec fn chosen_file(operands: Seq<Seq<char>>) -> Option<Seq<char>> {
    if exists|k: int| is_first_open(operands, k) {
        let k = choose|k: int| is_first_open(operands, k);
        if k + 1 < operands.len() {
            Some(operands[k + 1])
        } else {
            None
        }
    } else if operands.len() > 0 {
        Some(operands[0])
    } else {
        None
    }
}

/// The tokens after the program's name.
pub open spec fn tokens_after_program(args: Seq<Seq<char>>) -> Seq<Seq<char>> {
    if args.len() == 0 {
        args
    } else {
        args.skip(1)
    }
}

/// The operands of a command line.
pub open spec fn operands_of(args: Seq<Seq<char>>) -> Seq<Seq<char>> {
    scan(tokens_after_program(args)).positionals
}

/// The launch options that a command line gives.
pub open spec fn launch_options(args: Seq<Seq<char>>) -> LaunchView {
    let found = scan(tokens_after_program(args));
    LaunchView {
        file_path: chosen_file(found.positionals),
        bundle_dir: found.bundle_dir,
        principles_path: found.principles_path,
        out_path: found.out_path,
    }
}

impl LaunchView {
    /// These options with `field` set to `value`.
    pub open spec fn with_value(self, field: LaunchField, value: Seq<char>) -> LaunchView {
        match field {
            LaunchField::BundleDir => LaunchView { bundle_dir: Some(value), ..self },
            LaunchField::PrinciplesPath => LaunchView { principles_path: Some(value), ..self },
            LaunchField::OutPath => LaunchView { out_path: Some(value), ..self },
        }
    }
}

/// What a scan in progress holds: the options set so far and the operands seen so far.
pub open spec fn progress(options: LaunchView, operands: Seq<Seq<char>>) -> Scan {
    Scan {
        bundle_dir: options.bundle_dir,
        principles_path: options.principles_path,
        out_path: options.out_path,
        positionals: operands,
    }
}

impl CliOptions {
    /// Options with no field set.
    pub fn new() -> (options: CliOptions)
        ensures
            options.file_path.is_none(),
            options.bundle_dir.is_none(),
            options.principles_path.is_none(),
            options.out_path.is_none(),
    {
        CliOptions { file_path: None, bundle_dir: None, principles_path: None, out_path: None }
    }

    /// These options with one of the three valued options set.
    pub fn with_value(self, field: LaunchField, value: String) -> (options: CliOptions)
        ensures
            options@ == self@.with_value(field, value@),
    {
        let mut options = self;
        match field {
            LaunchField::BundleDir => {
                options.bundle_dir = Some(value);
            },
            LaunchField::PrinciplesPath => {
                options.principles_path = Some(value);
            },
            LaunchField::OutPath => {
                options.out_path = Some(value);
            },
        }
        options
    }
}

impl Default for CliOptions {
    fn default() -> (options: CliOptions)
        ensures
            options.file_path.is_none(),
            options.bundle_dir.is_none(),
            options.principles_path.is_none(),
            options.out_path.is_none(),
    {
        CliOptions::new()
    }
}

/// Tells which option a token names, if it is exactly a flag.
pub fn flag_of(token: &str) -> (field: Option<LaunchField>)
    ensures
        field == named_option(token@),
{
    if same_text(token, "--bundle-dir") {
        Some(LaunchField::BundleDir)
    } else if same_text(token, "--principles") {
        Some(LaunchField::PrinciplesPath)
    } else if same_text(token, "--out") {
        Some(LaunchField::OutPath)
    } else {
        None
    }
}

/// Splits a token of the form `--flag=value` into its option and value.
pub fn assignment_of<'a>(token: &'a str) -> (found: Option<(LaunchField, &'a str)>)
    ensures
        match found {
            Some((field, value)) => inline_option(token@) == Some((field, value@)),
            None => inline_option(token@).is_none(),
        },
{
    if let Some(value) = strip_prefix(token, "--bundle-dir=") {
        Some((LaunchField::BundleDir, value))
    } else if let Some(value) = strip_prefix(token, "--principles=") {
        Some((LaunchField::PrinciplesPath, value))
    } else if let Some(value) = strip_prefix(token, "--out=") {
        Some((LaunchField::OutPath, value))
    } else {
        None
    }
}

/// Chooses the document to open from the operands.
pub fn choose_file(operands: &Vec<String>) -> (file: Option<String>)
    ensures
        text_of(file) == chosen_file(texts(operands@)),
{
    let ghost all = texts(operands@);
    let mut i: usize = 0;
    while i < operands.len()
        invariant
            i <= operands.len(),
            all == texts(operands@),
            forall|j: int| 0 <= j < i ==> all[j] != open_word(),
        decreases operands.len() - i,
    {
        if same_text(operands[i].as_str(), "open") {
            proof {
                assert(all[i as int] == open_word());
                assert(is_first_open(all, i as int));
                let k = choose|k: int| is_first_open(all, k);
                if k < i {
                    assert(all[k] != open_word());
                }
                if i < k {
                    assert(all[i as int] != open_word());
                }
            }
            if i + 1 < operands.len() {
                let file = operands[i + 1].clone();
                assert(all[i + 1] == file@);
                return Some(file);
            }
            return None;
        }
        assert(all[i as int] == operands@[i as int]@);
        i += 1;
    }
    proof {
        assert forall|k: int| !is_first_open(all, k) by {
            if 0 <= k < all.len() {
                assert(all[k] != open_word());
            }
        }
    }
    if operands.len() > 0 {
        let file = operands[0].clone();
        assert(all[0] == file@);
        Some(file)
    } else {
        None
    }
}

/// Reads the launch options from a command line, whose first token is the
/// program's name. Every command line gives options: a flag that cannot be
/// read leaves its field unset.
pub fn parse_cli_options(args: &[String]) -> (options: CliOptions)
    ensures
        options@ == launch_options(texts(args@)),
{
    let mut options = CliOptions::new();
    let mut positionals: Vec<String> = Vec::new();
    let ghost all = texts(args@);
    let ghost goal = scan(tokens_after_program(all));
    let mut i: usize = 1;
    if args.len() > 0 {
        proof {
            assert(progress(options@, texts(positionals@)).positionals =~= Seq::empty());
            assert(Scan::empty().then_scan(goal).positionals =~= goal.positionals);
        }
        while i < args.len()
            invariant
                1 <= i <= args.len(),
                all == texts(args@),
                options.file_path.is_none(),
                progress(options@, texts(positionals@)).then_scan(scan(all.skip(i as int))) == goal,
            decreases args.len() - i,
        {
            let arg = args[i].as_str();
            let ghost rest = all.skip(i as int);
            assert(rest[0] == arg@);
            let named = flag_of(arg);
            let inline = assignment_of(arg);
            if named.is_some() && i + 1 < args.len() {
                let value = args[i + 1].clone();
                proof {
                    assert(rest[1] == value@);
                    assert(rest.skip(2) =~= all.skip(i + 2));
                }
                options = options.with_value(named.unwrap(), value);
                i += 2;
            } else if let Some((field, value)) = inline {
                proof {
                    assert(rest.skip(1) =~= all.skip(i + 1));
                }
                options = options.with_value(field, value.to_owned());
                i += 1;
            } else if starts_with_dash(arg) {
                proof {
                    assert(rest.skip(1) =~= all.skip(i + 1));
                }
                i += 1;
            } else {
                proof {
                    assert(rest.skip(1) =~= all.skip(i + 1));
                    let later = scan(all.skip(i + 1));
                    assert(texts(positionals@.push(args@[i as int])) =~= texts(
                        positionals@,
                    ).push(arg@));
                    assert(texts(positionals@).push(arg@) + later.positionals =~= texts(
                        positionals@,
                    ) + (seq![arg@] + later.positionals));
                }
                positionals.push(args[i].clone());
                i += 1;
            }
        }
        proof {
            let found = progress(options@, texts(positionals@));
            assert(found.positionals + Seq::<Seq<char>>::empty() =~= found.positionals);
        }
    } else {
        proof {
            assert(texts(positionals@) =~= Seq::empty());
        }
    }
    let file = choose_file(&positionals);
    options.file_path = file;
    options
}

} // verus!
