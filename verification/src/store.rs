//! The per-command state machine. One `Command` starts one machine; the
//! unverified driver performs each returned action (read the directory,
//! run the cipher, prompt the user, write a file) and reports what happened,
//! and the machine decides the next action. Every decision — how a name
//! resolves, when a confirmation is required, what is written and what is
//! printed — is made here.

use vstd::prelude::*;
use vstd::seq_lib::*;
use vstd::string::*;

use crate::args::{AddEditData, Command};
use crate::config::Config;
use crate::entry::{
    dec_notes, dec_password, dec_username, decode, encode, encoded, has_nl, lemma_dec_no_nl,
    lemma_round_trip, strip_nl, Entry,
};
use crate::error::{describe_spec, Error};
use crate::gen::generate;
use crate::order::{sort_names, sorted_lex};
use crate::resolve::{
    candidates_of, filter_prefixed, listing_contains, prefixed_of, resolve_listing,
    select_candidate, Resolution,
};
use crate::strutil::{
    all_digits, bold, bold_spec, concat2, concat3, dec_rep, digits_val, fmt_usize, trim,
    trim_spec,
};

verus! {

/// One external action for the driver to perform before the next step.
pub enum Op {
    /// List the filenames in the secret directory.
    ReadDir,
    /// Read the named file's bytes as text.
    ReadFile(String),
    /// Create or truncate the named file with this ciphertext.
    WriteFile(String, String),
    /// Remove the named file.
    RemoveFile(String),
    /// Run the configured encrypt command on this plaintext.
    Encrypt(String),
    /// Run the configured decrypt command on this ciphertext.
    Decrypt(String),
    /// Send this text to the clipboard command.
    Clip(String),
    /// Print this prompt and read one visible line.
    Ask(String),
    /// Print this prompt and read one hidden line.
    AskHidden(String),
    /// The command finished; nothing more to do.
    Done,
    /// The command failed; report the error and stop.
    Fail(Error),
}

/// What one step tells the driver: lines to print, then one action.
pub struct Step {
    pub out: Vec<String>,
    pub op: Op,
}

/// What the driver reports back about the action it performed.
pub enum Event {
    /// The filenames a `ReadDir` found.
    Listing(Vec<String>),
    /// The text a `ReadFile`, `Encrypt` or `Decrypt` produced.
    Data(String),
    /// The line an `Ask` or `AskHidden` read.
    Line(String),
    /// A `WriteFile`, `RemoveFile` or `Clip` completed.
    Ack,
    /// The action could not be performed.
    Failed,
}

/// What to do with a name once resolution settles on it.
pub enum Target {
    /// Decrypt and display it; `catch` reports a resolution failure as text
    /// instead of failing, as a plain lookup does.
    Show { print: bool, catch: bool },
    /// Rewrite it with the merged fields.
    Edit { data: AddEditData },
    /// Confirm and remove it.
    Del,
}

/// Where a command stands; each variant waits for one kind of event.
pub enum Phase {
    /// Awaiting the directory listing to resolve a fragment.
    Resolving { frag: String, tgt: Target },
    /// Awaiting the user's pick from an ambiguous candidate menu.
    Choosing { cands: Vec<String>, tgt: Target },
    /// Awaiting the ciphertext of the file being shown.
    ShowReading { print: bool },
    /// Awaiting the decrypted text of the file being shown.
    ShowDecrypting { print: bool },
    /// Awaiting the clipboard's acknowledgement of the password.
    ShowClipping { notes: String },
    /// Awaiting the username the user was asked for.
    AddAskingUser { data: AddEditData },
    /// Awaiting the password the user chose to type for an add.
    AddAskingPw { data: AddEditData, username: String },
    /// Awaiting the ciphertext of the entry being edited.
    EditReading { data: AddEditData, name: String },
    /// Awaiting the decrypted text of the entry being edited.
    EditDecrypting { data: AddEditData, name: String },
    /// Awaiting the password the user chose to type for an edit.
    EditAskingPw { name: String, print: bool, username: String, notes: String },
    /// Awaiting the cipher's output for the new file contents.
    Encrypting { name: String, print: bool, check: bool },
    /// Awaiting the directory listing for the overwrite check.
    CheckingDir { name: String, print: bool, cipher: String },
    /// Awaiting the explicit yes before an existing file is overwritten.
    ConfirmingOverwrite { name: String, print: bool, cipher: String },
    /// Awaiting the acknowledgement that the file was written.
    Writing { name: String, print: bool },
    /// Awaiting the explicit yes before a file is removed.
    DelConfirming { name: String },
    /// Awaiting the acknowledgement that the file was removed.
    DelRemoving,
    /// Awaiting the directory listing to print.
    ListListing { prefix: String },
    /// Awaiting the clipboard's acknowledgement of a generated password.
    GenClipping { pw: String },
    /// Terminal: the command succeeded.
    Done,
    /// Terminal: the command failed.
    Failed,
}

/// The machine: the configuration and where the command stands.
pub struct Store {
    pub conf: Config,
    pub phase: Phase,
}

/// A failure, at specification level: the kind and the text it mentions.
pub enum ErrKind {
    NotFound(Seq<char>),
    InvalidSelection(Seq<char>),
    Malformed,
    Cipher,
    Clip,
    Io,
}

/// The error value reports this kind.
pub open spec fn err_is(e: Error, k: ErrKind) -> bool {
    match k {
        ErrKind::NotFound(f) => e matches Error::NotFound { fragment } && fragment@ == f,
        ErrKind::InvalidSelection(a) => e matches Error::InvalidSelection { answer } && answer@
            == a,
        ErrKind::Malformed => e is MalformedEntry,
        ErrKind::Cipher => e is CipherFailure,
        ErrKind::Clip => e is ClipboardFailure,
        ErrKind::Io => e is IoFailure,
    }
}

/// The message text for each failure kind.
pub open spec fn err_text(k: ErrKind) -> Seq<char> {
    match k {
        ErrKind::NotFound(f) => "No match for: "@ + f,
        ErrKind::InvalidSelection(a) => "Invalid selection: "@ + a,
        ErrKind::Malformed => "Malformed entry"@,
        ErrKind::Cipher => "Cipher command failed"@,
        ErrKind::Clip => "Clipboard command failed"@,
        ErrKind::Io => "File error"@,
    }
}

/// The view of an optional string; empty when absent.
pub open spec fn opt_view(n: Option<String>) -> Seq<char> {
    match n {
        Some(s) => s@,
        None => Seq::<char>::empty(),
    }
}

/// An interactive yes: exactly `y` or `Y` once trimmed; anything else,
/// including nothing, is a no.
pub open spec fn confirms_spec(t: Seq<char>) -> bool {
    t == seq!['y'] || t == seq!['Y']
}

/// A password the generator could have produced under this configuration:
/// exactly the configured length, every character from the configured pool.
pub open spec fn from_charset(conf: Config, pw: Seq<char>) -> bool {
    &&& pw.len() == conf.password_length as int
    &&& forall|i: int| 0 <= i < pw.len() ==> conf.password_choices@.contains(#[trigger] pw[i])
}

/// Which event each phase waits for; terminal phases take none.
pub open spec fn expects(p: Phase, ev: Event) -> bool {
    if p is Done || p is Failed {
        false
    } else if ev is Failed {
        true
    } else {
        match p {
            Phase::Resolving { .. } => ev is Listing,
            Phase::Choosing { .. } => ev is Line,
            Phase::ShowReading { .. } => ev is Data,
            Phase::ShowDecrypting { .. } => ev is Data,
            Phase::ShowClipping { .. } => ev is Ack,
            Phase::AddAskingUser { .. } => ev is Line,
            Phase::AddAskingPw { .. } => ev is Line,
            Phase::EditReading { .. } => ev is Data,
            Phase::EditDecrypting { .. } => ev is Data,
            Phase::EditAskingPw { .. } => ev is Line,
            Phase::Encrypting { .. } => ev is Data,
            Phase::CheckingDir { .. } => ev is Listing,
            Phase::ConfirmingOverwrite { .. } => ev is Line,
            Phase::Writing { .. } => ev is Ack,
            Phase::DelConfirming { .. } => ev is Line,
            Phase::DelRemoving => ev is Ack,
            Phase::ListListing { .. } => ev is Listing,
            Phase::GenClipping { .. } => ev is Ack,
            Phase::Done | Phase::Failed => false,
        }
    }
}

/// The failure each phase's action turns into when it cannot be performed.
pub open spec fn err_of(p: Phase) -> ErrKind {
    match p {
        Phase::ShowDecrypting { .. } => ErrKind::Cipher,
        Phase::EditDecrypting { .. } => ErrKind::Cipher,
        Phase::Encrypting { .. } => ErrKind::Cipher,
        Phase::ShowClipping { .. } => ErrKind::Clip,
        Phase::GenClipping { .. } => ErrKind::Clip,
        _ => ErrKind::Io,
    }
}

/// The step ends the command with this failure.
pub open spec fn fails_to(conf: Config, k: ErrKind, post: Store, s: Step) -> bool {
    &&& post.conf == conf
    &&& post.phase is Failed
    &&& s.out@.len() == 0
    &&& s.op matches Op::Fail(e) && err_is(e, k)
}

/// The one line printed before acting on a name found by fuzzy matching.
pub open spec fn guessing_out(guessed: bool, name: Seq<char>) -> Seq<Seq<char>> {
    if guessed {
        seq!["Guessing "@ + bold_spec(name)]
    } else {
        Seq::<Seq<char>>::empty()
    }
}

/// Resolution settled on `name`: the step hands it to the target, telling
/// the user first when the name was inferred rather than typed.
pub open spec fn proceeds_to(
    conf: Config,
    tgt: Target,
    name: Seq<char>,
    guessed: bool,
    post: Store,
    s: Step,
) -> bool {
    &&& post.conf == conf
    &&& s.out.deep_view() == guessing_out(guessed, name)
    &&& match tgt {
        Target::Show { print, catch } => {
            &&& post.phase matches Phase::ShowReading { print: p2 } && p2 == print
            &&& s.op matches Op::ReadFile(f) && f@ == name
        },
        Target::Edit { data } => {
            &&& post.phase matches Phase::EditReading { data: d2, name: n2 } && d2 == data && n2@
                == name
            &&& s.op matches Op::ReadFile(f) && f@ == name
        },
        Target::Del => {
            &&& post.phase matches Phase::DelConfirming { name: n2 } && n2@ == name
            &&& s.op matches Op::Ask(m) && m@ == "Delete "@ + conf.home@ + "/"@ + name
                + "? [y|N] "@
        },
    }
}

/// Resolution failed: a plain lookup reports the failure and ends cleanly;
/// every other command fails outright.
pub open spec fn resolve_fails_to(
    conf: Config,
    tgt: Target,
    k: ErrKind,
    post: Store,
    s: Step,
) -> bool {
    match tgt {
        Target::Show { print, catch } => if catch {
            &&& post.conf == conf
            &&& post.phase is Done
            &&& s.out.deep_view() == seq!["get failed: "@ + err_text(k)]
            &&& s.op is Done
        } else {
            fails_to(conf, k, post, s)
        },
        _ => fails_to(conf, k, post, s),
    }
}

/// The numbered candidate menu: a header, then one zero-indexed line per
/// candidate.
pub open spec fn menu_out(cands: Seq<Seq<char>>, out: Seq<Seq<char>>) -> bool {
    &&& out.len() == 1 + cands.len()
    &&& out[0] == "Did you mean:"@
    &&& forall|i: int| 0 <= i < cands.len() ==> out[i + 1] == dec_rep(i) + " - "@ + #[trigger] cands[i]
}

/// The step hands this plaintext to the cipher, headed for the named file.
pub open spec fn encrypts_to(
    conf: Config,
    name: Seq<char>,
    print: bool,
    check: bool,
    pt: Seq<char>,
    post: Store,
    s: Step,
) -> bool {
    &&& post.conf == conf
    &&& post.phase matches Phase::Encrypting { name: n2, print: p2, check: c2 } && n2@ == name
        && p2 == print && c2 == check
    &&& s.out@.len() == 0
    &&& s.op matches Op::Encrypt(p) && p@ == pt
}

/// The step writes this ciphertext to the named file.
pub open spec fn writes_to(
    conf: Config,
    name: Seq<char>,
    print: bool,
    ct: Seq<char>,
    post: Store,
    s: Step,
) -> bool {
    &&& post.conf == conf
    &&& post.phase matches Phase::Writing { name: n2, print: p2 } && n2@ == name && p2 == print
    &&& s.out@.len() == 0
    &&& s.op matches Op::WriteFile(n, c) && n@ == name && c@ == ct
}

/// An add continues once the username is settled: either ask for the
/// password, or generate one and head for the cipher.
pub open spec fn add_continues(
    conf: Config,
    data: AddEditData,
    un: Seq<char>,
    post: Store,
    s: Step,
) -> bool {
    if data.prompt.0 {
        &&& post.conf == conf
        &&& post.phase matches Phase::AddAskingPw { data: d2, username: u2 } && d2 == data && u2@
            == un
        &&& s.out@.len() == 0
        &&& s.op matches Op::AskHidden(m) && m@ == "Password: "@
    } else {
        exists|pw: Seq<char>|
            #[trigger] from_charset(conf, pw) && encrypts_to(
                conf,
                data.filepart@,
                data.print.0,
                true,
                encoded(pw, un, opt_view(data.notes)),
                post,
                s,
            )
    }
}

/// What starting a command does: the first phase and the first action.
pub open spec fn start_rel(conf: Config, cmd: Command, post: Store, s: Step) -> bool {
    match cmd {
        Command::Get(gd) => {
            &&& post.conf == conf
            &&& post.phase matches Phase::Resolving { frag, tgt } && frag@ == gd.filepart@ && (
            tgt matches Target::Show { print, catch } && print == gd.print.0 && catch)
            &&& s.out@.len() == 0
            &&& s.op is ReadDir
        },
        Command::Edit(d) => {
            &&& post.conf == conf
            &&& post.phase matches Phase::Resolving { frag, tgt } && frag@ == d.filepart@ && (
            tgt matches Target::Edit { data } && data == d)
            &&& s.out@.len() == 0
            &&& s.op is ReadDir
        },
        Command::Del { filepart } => {
            &&& post.conf == conf
            &&& post.phase matches Phase::Resolving { frag, tgt } && frag@ == filepart@ && tgt
                is Del
            &&& s.out@.len() == 0
            &&& s.op is ReadDir
        },
        Command::List { filepart } => {
            &&& post.conf == conf
            &&& post.phase matches Phase::ListListing { prefix } && prefix@ == opt_view(filepart)
            &&& s.out.deep_view() == seq![
                "Listing "@ + bold_spec(conf.home@ + "/"@ + opt_view(filepart) + "*"@) + ":"@,
            ]
            &&& s.op is ReadDir
        },
        Command::Gen => {
            &&& post.conf == conf
            &&& post.phase matches Phase::GenClipping { pw } && from_charset(conf, pw@) && (
            s.op matches Op::Clip(p) && p@ == pw@)
            &&& s.out@.len() == 0
        },
        Command::Add(d) => match d.username {
            None => {
                &&& post.conf == conf
                &&& post.phase matches Phase::AddAskingUser { data } && data == d
                &&& s.out@.len() == 0
                &&& s.op matches Op::Ask(m) && m@ == "Username: "@
            },
            Some(u) => add_continues(conf, d, u@, post, s),
        },
    }
}

/// What one step does, for every phase and the event it waits for.
pub open spec fn step_rel(pre: Store, ev: Event, post: Store, s: Step) -> bool {
    let conf = pre.conf;
    if ev is Failed {
        fails_to(conf, err_of(pre.phase), post, s)
    } else {
        match pre.phase {
            Phase::Resolving { frag, tgt } => ev matches Event::Listing(names) && {
                let dv = names.deep_view();
                let f = frag@;
                if dv.contains(f) {
                    proceeds_to(conf, tgt, f, false, post, s)
                } else {
                    let cands = candidates_of(dv, f);
                    if cands.len() == 0 {
                        resolve_fails_to(conf, tgt, ErrKind::NotFound(f), post, s)
                    } else if cands.len() == 1 {
                        proceeds_to(conf, tgt, cands[0], true, post, s)
                    } else {
                        &&& post.conf == conf
                        &&& post.phase matches Phase::Choosing { cands: cv, tgt: t2 } && t2 == tgt
                            && sorted_lex(cv.deep_view()) && cv.deep_view().to_multiset()
                            == cands.to_multiset() && cv.deep_view().len() == cands.len()
                            && menu_out(cv.deep_view(), s.out.deep_view())
                        &&& s.op matches Op::Ask(m) && m@ == "Select a choice ? "@
                    }
                }
            },
            Phase::Choosing { cands, tgt } => ev matches Event::Line(l) && {
                let t = trim_spec(l@);
                let dv = cands.deep_view();
                if t.len() > 0 && all_digits(t) && 0 <= digits_val(t) < dv.len() {
                    proceeds_to(conf, tgt, dv[digits_val(t)], true, post, s)
                } else {
                    resolve_fails_to(conf, tgt, ErrKind::InvalidSelection(t), post, s)
                }
            },
            Phase::ShowReading { print } => ev matches Event::Data(ct) && {
                &&& post.conf == conf
                &&& post.phase matches Phase::ShowDecrypting { print: p2 } && p2 == print
                &&& s.out@.len() == 0
                &&& s.op matches Op::Decrypt(c) && c@ == ct@
            },
            Phase::ShowDecrypting { print } => ev matches Event::Data(pt) && {
                if !has_nl(pt@) {
                    fails_to(conf, ErrKind::Malformed, post, s)
                } else {
                    let pw = dec_password(pt@);
                    let un = dec_username(pt@);
                    let no = dec_notes(pt@);
                    if print {
                        &&& post.conf == conf
                        &&& post.phase is Done
                        &&& s.out.deep_view() == seq![bold_spec(un), pw, no]
                        &&& s.op is Done
                    } else {
                        &&& post.conf == conf
                        &&& post.phase matches Phase::ShowClipping { notes } && notes@ == no
                        &&& s.out.deep_view() == seq![bold_spec(un)]
                        &&& s.op matches Op::Clip(p) && p@ == pw
                    }
                }
            },
            Phase::ShowClipping { notes } => ev is Ack && {
                &&& post.conf == conf
                &&& post.phase is Done
                &&& s.out.deep_view() == seq![notes@]
                &&& s.op is Done
            },
            Phase::AddAskingUser { data } => ev matches Event::Line(l) && add_continues(
                conf,
                data,
                trim_spec(l@),
                post,
                s,
            ),
            Phase::AddAskingPw { data, username } => ev matches Event::Line(l) && encrypts_to(
                conf,
                data.filepart@,
                data.print.0,
                true,
                encoded(l@, username@, opt_view(data.notes)),
                post,
                s,
            ),
            Phase::EditReading { data, name } => ev matches Event::Data(ct) && {
                &&& post.conf == conf
                &&& post.phase matches Phase::EditDecrypting { data: d2, name: n2 } && d2 == data
                    && n2@ == name@
                &&& s.out@.len() == 0
                &&& s.op matches Op::Decrypt(c) && c@ == ct@
            },
            Phase::EditDecrypting { data, name } => ev matches Event::Data(pt) && {
                if !has_nl(pt@) {
                    fails_to(conf, ErrKind::Malformed, post, s)
                } else {
                    let un = match data.username {
                        Some(u) => u@,
                        None => dec_username(pt@),
                    };
                    let no = match data.notes {
                        Some(nn) => nn@,
                        None => dec_notes(pt@),
                    };
                    if data.prompt.0 {
                        &&& post.conf == conf
                        &&& post.phase matches Phase::EditAskingPw {
                            name: n2,
                            print: p2,
                            username: u2,
                            notes: no2,
                        } && n2@ == name@ && p2 == data.print.0 && u2@ == un && no2@ == no
                        &&& s.out@.len() == 0
                        &&& s.op matches Op::AskHidden(m) && m@ == "Password: "@
                    } else {
                        encrypts_to(
                            conf,
                            name@,
                            data.print.0,
                            false,
                            encoded(dec_password(pt@), un, no),
                            post,
                            s,
                        )
                    }
                }
            },
            Phase::EditAskingPw { name, print, username, notes } => ev matches Event::Line(l)
                && encrypts_to(conf, name@, print, false, encoded(l@, username@, notes@), post, s),
            Phase::Encrypting { name, print, check } => ev matches Event::Data(ct) && {
                if check {
                    &&& post.conf == conf
                    &&& post.phase matches Phase::CheckingDir { name: n2, print: p2, cipher }
                        && n2@ == name@ && p2 == print && cipher@ == ct@
                    &&& s.out@.len() == 0
                    &&& s.op is ReadDir
                } else {
                    writes_to(conf, name@, print, ct@, post, s)
                }
            },
            Phase::CheckingDir { name, print, cipher } => ev matches Event::Listing(names) && {
                if names.deep_view().contains(name@) {
                    &&& post.conf == conf
                    &&& post.phase matches Phase::ConfirmingOverwrite {
                        name: n2,
                        print: p2,
                        cipher: c2,
                    } && n2@ == name@ && p2 == print && c2@ == cipher@
                    &&& s.out.deep_view() == seq![
                        "WARNING: "@ + conf.home@ + "/"@ + name@ + " already exists."@,
                    ]
                    &&& s.op matches Op::Ask(m) && m@ == "Overwrite name? [y|N]"@
                } else {
                    writes_to(conf, name@, print, cipher@, post, s)
                }
            },
            Phase::ConfirmingOverwrite { name, print, cipher } => ev matches Event::Line(l) && {
                if confirms_spec(trim_spec(l@)) {
                    writes_to(conf, name@, print, cipher@, post, s)
                } else {
                    &&& post.conf == conf
                    &&& post.phase is Done
                    &&& s.out.deep_view() == seq!["Not overwriting"@]
                    &&& s.op is Done
                }
            },
            Phase::Writing { name, print } => ev is Ack && {
                &&& post.conf == conf
                &&& post.phase matches Phase::Resolving { frag, tgt } && frag@ == name@ && (
                tgt matches Target::Show { print: p2, catch } && p2 == print && !catch)
                &&& s.out@.len() == 0
                &&& s.op is ReadDir
            },
            Phase::DelConfirming { name } => ev matches Event::Line(l) && {
                if confirms_spec(trim_spec(l@)) {
                    &&& post.conf == conf
                    &&& post.phase is DelRemoving
                    &&& s.out@.len() == 0
                    &&& s.op matches Op::RemoveFile(n) && n@ == name@
                } else {
                    &&& post.conf == conf
                    &&& post.phase is Done
                    &&& s.out.deep_view() == seq!["Not deleted"@]
                    &&& s.op is Done
                }
            },
            Phase::DelRemoving => ev is Ack && {
                &&& post.conf == conf
                &&& post.phase is Done
                &&& s.out@.len() == 0
                &&& s.op is Done
            },
            Phase::ListListing { prefix } => ev matches Event::Listing(names) && {
                let m = prefixed_of(names.deep_view(), prefix@);
                &&& post.conf == conf
                &&& post.phase is Done
                &&& s.op is Done
                &&& if m.len() == 0 {
                    s.out.deep_view() == seq!["No matches"@]
                } else {
                    sorted_lex(s.out.deep_view()) && s.out.deep_view().to_multiset()
                        == m.to_multiset()
                }
            },
            Phase::GenClipping { pw } => ev is Ack && {
                &&& post.conf == conf
                &&& post.phase is Done
                &&& s.out.deep_view() == seq![pw@]
                &&& s.op is Done
            },
            Phase::Done | Phase::Failed => false,
        }
    }
}

/// Whether an interactive answer is an explicit yes.
pub fn confirms(line: &str) -> (r: bool)
    ensures
        r == confirms_spec(trim_spec(line@)),
{
    let t = trim(line);
    let tl: usize = t.as_str().unicode_len();
    if tl == 1 {
        let c = t.as_str().get_char(0);
        proof {
            if c == 'y' {
                assert(t@ =~= seq!['y']);
            }
            if c == 'Y' {
                assert(t@ =~= seq!['Y']);
            }
            if c != 'y' && c != 'Y' {
                assert(t@ != seq!['y'] && t@ != seq!['Y']) by {
                    assert(t@[0] == c);
                    assert(seq!['y'][0] == 'y');
                    assert(seq!['Y'][0] == 'Y');
                }
            }
        }
        c == 'y' || c == 'Y'
    } else {
        proof {
            assert(seq!['y'].len() == 1);
            assert(seq!['Y'].len() == 1);
        }
        false
    }
}

fn mk_fail(conf: Config, e: Error) -> (r: (Store, Step))
    ensures
        r.0.conf == conf,
        r.0.phase is Failed,
        r.1.out@.len() == 0,
        r.1.op matches Op::Fail(e2) && e2 == e,
{
    (Store { conf, phase: Phase::Failed }, Step { out: Vec::new(), op: Op::Fail(e) })
}

fn done_with(conf: Config, msg: &str) -> (r: (Store, Step))
    ensures
        r.0.conf == conf,
        r.0.phase is Done,
        r.1.out.deep_view() == seq![msg@],
        r.1.op is Done,
{
    let mut out: Vec<String> = Vec::new();
    out.push(String::from_str(msg));
    proof {
        assert(out.deep_view() =~= seq![msg@]);
    }
    (Store { conf, phase: Phase::Done }, Step { out, op: Op::Done })
}

fn proceed(conf: Config, tgt: Target, name: String, guessed: bool) -> (r: (Store, Step))
    ensures
        proceeds_to(conf, tgt, name@, guessed, r.0, r.1),
{
    let mut out: Vec<String> = Vec::new();
    if guessed {
        let b = bold(name.as_str());
        out.push(concat2("Guessing ", b.as_str()));
    }
    proof {
        if guessed {
            assert(out.deep_view() =~= guessing_out(true, name@));
        } else {
            assert(out.deep_view() =~= guessing_out(false, name@));
        }
    }
    match tgt {
        Target::Show { print, catch: _ } => {
            let st = Store { conf, phase: Phase::ShowReading { print } };
            (st, Step { out, op: Op::ReadFile(name) })
        },
        Target::Edit { data } => {
            let f = String::from_str(name.as_str());
            let st = Store { conf, phase: Phase::EditReading { data, name } };
            (st, Step { out, op: Op::ReadFile(f) })
        },
        Target::Del => {
            let path = concat3(conf.dir(), "/", name.as_str());
            let msg = concat3("Delete ", path.as_str(), "? [y|N] ");
            proof {
                assert(msg@ =~= "Delete "@ + conf.home@ + "/"@ + name@ + "? [y|N] "@);
            }
            let st = Store { conf, phase: Phase::DelConfirming { name } };
            (st, Step { out, op: Op::Ask(msg) })
        },
    }
}

fn resolve_fail(conf: Config, tgt: Target, e: Error) -> (r: (Store, Step))
    ensures
        forall|k: ErrKind| err_is(e, k) ==> resolve_fails_to(conf, tgt, k, r.0, r.1),
{
    match tgt {
        Target::Show { print: _, catch } => {
            if catch {
                let d = e.describe();
                let msg = concat2("get failed: ", d.as_str());
                let mut out: Vec<String> = Vec::new();
                out.push(msg);
                let st = (Store { conf, phase: Phase::Done }, Step { out, op: Op::Done });
                proof {
                    assert forall|k: ErrKind| err_is(e, k) implies st.1.out.deep_view() == (
                    seq!["get failed: "@ + err_text(k)]) by {
                        assert(describe_spec(e) == err_text(k));
                        assert(st.1.out.deep_view() =~= seq!["get failed: "@ + err_text(k)]);
                    }
                }
                st
            } else {
                mk_fail(conf, e)
            }
        },
        _ => mk_fail(conf, e),
    }
}

fn encrypt_step(conf: Config, name: String, print: bool, check: bool, entry: Entry) -> (r: (
    Store,
    Step,
))
    ensures
        encrypts_to(
            conf,
            name@,
            print,
            check,
            encoded(entry.password@, entry.username@, entry.notes@),
            r.0,
            r.1,
        ),
{
    let pt = encode(&entry);
    let st = Store { conf, phase: Phase::Encrypting { name, print, check } };
    (st, Step { out: Vec::new(), op: Op::Encrypt(pt) })
}

fn write_step(conf: Config, name: String, print: bool, ct: String) -> (r: (Store, Step))
    ensures
        writes_to(conf, name@, print, ct@, r.0, r.1),
{
    let n2 = String::from_str(name.as_str());
    let st = Store { conf, phase: Phase::Writing { name: n2, print } };
    (st, Step { out: Vec::new(), op: Op::WriteFile(name, ct) })
}

fn add_continue(conf: Config, data: AddEditData, username: String) -> (r: (Store, Step))
    requires
        conf.wf(),
    ensures
        add_continues(conf, data, username@, r.0, r.1),
{
    if data.prompt.is() {
        let st = Store { conf, phase: Phase::AddAskingPw { data, username } };
        (st, Step { out: Vec::new(), op: Op::AskHidden(String::from_str("Password: ")) })
    } else {
        let pw = generate(conf.choices(), conf.pw_len());
        let ghost gpw = pw@;
        let AddEditData { filepart, username: _, print, prompt: _, notes } = data;
        let notes_s: String = match notes {
            Some(nn) => nn,
            None => String::new(),
        };
        let entry = Entry { password: pw, username, notes: notes_s };
        let res = encrypt_step(conf, filepart, print.0, true, entry);
        proof {
            assert(from_charset(conf, gpw));
            assert(encrypts_to(
                conf,
                data.filepart@,
                data.print.0,
                true,
                encoded(gpw, username@, opt_view(data.notes)),
                res.0,
                res.1,
            ));
        }
        res
    }
}

impl Store {
    /// Begins one command: the initial phase and the first action for the
    /// driver. The configuration must be one the password generator can
    /// honour (see `Config::wf`).
    pub fn start(conf: Config, cmd: Command) -> (r: (Store, Step))
        requires
            conf.wf(),
        ensures
            start_rel(conf, cmd, r.0, r.1),
    {
        match cmd {
            Command::Get(gd) => {
                let crate::args::GetData { filepart, print } = gd;
                let tgt = Target::Show { print: print.0, catch: true };
                let st = Store { conf, phase: Phase::Resolving { frag: filepart, tgt } };
                (st, Step { out: Vec::new(), op: Op::ReadDir })
            },
            Command::Edit(d) => {
                let f = String::from_str(d.filepart.as_str());
                let st = Store {
                    conf,
                    phase: Phase::Resolving { frag: f, tgt: Target::Edit { data: d } },
                };
                (st, Step { out: Vec::new(), op: Op::ReadDir })
            },
            Command::Del { filepart } => {
                let st = Store { conf, phase: Phase::Resolving { frag: filepart, tgt: Target::Del } };
                (st, Step { out: Vec::new(), op: Op::ReadDir })
            },
            Command::List { filepart } => {
                let prefix: String = match filepart {
                    Some(p) => p,
                    None => String::new(),
                };
                let glob = concat3(conf.dir(), "/", prefix.as_str());
                let glob_star = concat2(glob.as_str(), "*");
                let b = bold(glob_star.as_str());
                let header = concat3("Listing ", b.as_str(), ":");
                let mut out: Vec<String> = Vec::new();
                out.push(header);
                proof {
                    assert(glob_star@ =~= conf.home@ + "/"@ + prefix@ + "*"@);
                    assert(out.deep_view() =~= seq![
                        "Listing "@ + bold_spec(conf.home@ + "/"@ + prefix@ + "*"@) + ":"@,
                    ]);
                }
                let st = Store { conf, phase: Phase::ListListing { prefix } };
                (st, Step { out, op: Op::ReadDir })
            },
            Command::Gen => {
                let pw = generate(conf.choices(), conf.pw_len());
                let clip = String::from_str(pw.as_str());
                proof {
                    assert(from_charset(conf, pw@));
                }
                let st = Store { conf, phase: Phase::GenClipping { pw } };
                (st, Step { out: Vec::new(), op: Op::Clip(clip) })
            },
            Command::Add(d) => {
                if d.username.is_some() {
                    let uu: String = match &d.username {
                        Some(u) => u.clone(),
                        None => String::new(),
                    };
                    add_continue(conf, d, uu)
                } else {
                    let st = Store { conf, phase: Phase::AddAskingUser { data: d } };
                    (st, Step { out: Vec::new(), op: Op::Ask(String::from_str("Username: ")) })
                }
            },
        }
    }

    /// Applies the driver's report to move the command one step on.
    pub fn step(self, ev: Event) -> (r: (Store, Step))
        requires
            self.conf.wf(),
            expects(self.phase, ev),
        ensures
            step_rel(self, ev, r.0, r.1),
    {
        let Store { conf, phase } = self;
        match (phase, ev) {
            (p, Event::Failed) => {
                let e: Error = match &p {
                    Phase::ShowDecrypting { .. } => Error::CipherFailure,
                    Phase::EditDecrypting { .. } => Error::CipherFailure,
                    Phase::Encrypting { .. } => Error::CipherFailure,
                    Phase::ShowClipping { .. } => Error::ClipboardFailure,
                    Phase::GenClipping { .. } => Error::ClipboardFailure,
                    _ => Error::IoFailure,
                };
                mk_fail(conf, e)
            },
            (Phase::Resolving { frag, tgt }, Event::Listing(names)) => {
                match resolve_listing(&names, frag.as_str()) {
                    Resolution::Exact(name) => proceed(conf, tgt, name, false),
                    Resolution::Unique(name) => proceed(conf, tgt, name, true),
                    Resolution::NotFound => {
                        let ghost fv = frag@;
                        let e = Error::NotFound { fragment: frag };
                        proof {
                            assert(err_is(e, ErrKind::NotFound(fv)));
                        }
                        resolve_fail(conf, tgt, e)
                    },
                    Resolution::Ambiguous(cands) => {
                        let mut out: Vec<String> = Vec::new();
                        out.push(String::from_str("Did you mean:"));
                        proof {
                            assert(out.deep_view() =~= seq!["Did you mean:"@]);
                        }
                        let mut i: usize = 0;
                        while i < cands.len()
                            invariant
                                0 <= i <= cands@.len(),
                                out.deep_view().len() == 1 + i,
                                out.deep_view()[0] == "Did you mean:"@,
                                forall|k2: int|
                                    0 <= k2 < i ==> out.deep_view()[k2 + 1] == dec_rep(k2)
                                        + " - "@ + #[trigger] cands.deep_view()[k2],
                            decreases cands@.len() - i,
                        {
                            let num = fmt_usize(i);
                            let line = concat3(num.as_str(), " - ", cands[i].as_str());
                            let ghost old_out = out.deep_view();
                            out.push(line);
                            proof {
                                assert(out.deep_view() =~= old_out.push(line@));
                            }
                            i = i + 1;
                        }
                        let st = Store { conf, phase: Phase::Choosing { cands, tgt } };
                        (st, Step { out, op: Op::Ask(String::from_str("Select a choice ? ")) })
                    },
                }
            },
            (Phase::Choosing { cands, tgt }, Event::Line(l)) => {
                match select_candidate(&cands, l.as_str()) {
                    Ok(name) => proceed(conf, tgt, name, true),
                    Err(e) => {
                        proof {
                            assert(err_is(e, ErrKind::InvalidSelection(trim_spec(l@))));
                        }
                        resolve_fail(conf, tgt, e)
                    },
                }
            },
            (Phase::ShowReading { print }, Event::Data(ct)) => {
                let st = Store { conf, phase: Phase::ShowDecrypting { print } };
                (st, Step { out: Vec::new(), op: Op::Decrypt(ct) })
            },
            (Phase::ShowDecrypting { print }, Event::Data(pt)) => {
                match decode(pt.as_str()) {
                    Err(_) => mk_fail(conf, Error::MalformedEntry),
                    Ok(entry) => {
                        let b = bold(entry.username.as_str());
                        let mut out: Vec<String> = Vec::new();
                        out.push(b);
                        if print {
                            out.push(entry.password);
                            out.push(entry.notes);
                            proof {
                                assert(out.deep_view() =~= seq![
                                    bold_spec(dec_username(pt@)),
                                    dec_password(pt@),
                                    dec_notes(pt@),
                                ]);
                            }
                            (Store { conf, phase: Phase::Done }, Step { out, op: Op::Done })
                        } else {
                            proof {
                                assert(out.deep_view() =~= seq![bold_spec(dec_username(pt@))]);
                            }
                            let st = Store {
                                conf,
                                phase: Phase::ShowClipping { notes: entry.notes },
                            };
                            (st, Step { out, op: Op::Clip(entry.password) })
                        }
                    },
                }
            },
            (Phase::ShowClipping { notes }, Event::Ack) => {
                let ghost nv = notes@;
                let mut out: Vec<String> = Vec::new();
                out.push(notes);
                proof {
                    assert(out.deep_view() =~= seq![nv]);
                }
                (Store { conf, phase: Phase::Done }, Step { out, op: Op::Done })
            },
            (Phase::AddAskingUser { data }, Event::Line(l)) => {
                let username = trim(l.as_str());
                add_continue(conf, data, username)
            },
            (Phase::AddAskingPw { data, username }, Event::Line(l)) => {
                let AddEditData { filepart, username: _, print, prompt: _, notes } = data;
                let notes_s: String = match notes {
                    Some(nn) => nn,
                    None => String::new(),
                };
                let entry = Entry { password: l, username, notes: notes_s };
                encrypt_step(conf, filepart, print.0, true, entry)
            },
            (Phase::EditReading { data, name }, Event::Data(ct)) => {
                let st = Store { conf, phase: Phase::EditDecrypting { data, name } };
                (st, Step { out: Vec::new(), op: Op::Decrypt(ct) })
            },
            (Phase::EditDecrypting { data, name }, Event::Data(pt)) => {
                match decode(pt.as_str()) {
                    Err(_) => mk_fail(conf, Error::MalformedEntry),
                    Ok(entry) => {
                        let AddEditData { filepart: _, username: du, print, prompt, notes: dn } =
                            data;
                        let un: String = match du {
                            Some(u) => u,
                            None => entry.username,
                        };
                        let no: String = match dn {
                            Some(nn) => nn,
                            None => entry.notes,
                        };
                        if prompt.is() {
                            let st = Store {
                                conf,
                                phase: Phase::EditAskingPw {
                                    name,
                                    print: print.0,
                                    username: un,
                                    notes: no,
                                },
                            };
                            (
                                st,
                                Step {
                                    out: Vec::new(),
                                    op: Op::AskHidden(String::from_str("Password: ")),
                                },
                            )
                        } else {
                            encrypt_step(
                                conf,
                                name,
                                print.0,
                                false,
                                Entry { password: entry.password, username: un, notes: no },
                            )
                        }
                    },
                }
            },
            (Phase::EditAskingPw { name, print, username, notes }, Event::Line(l)) => {
                encrypt_step(conf, name, print, false, Entry { password: l, username, notes })
            },
            (Phase::Encrypting { name, print, check }, Event::Data(ct)) => {
                if check {
                    let st = Store { conf, phase: Phase::CheckingDir { name, print, cipher: ct } };
                    (st, Step { out: Vec::new(), op: Op::ReadDir })
                } else {
                    write_step(conf, name, print, ct)
                }
            },
            (Phase::CheckingDir { name, print, cipher }, Event::Listing(names)) => {
                if listing_contains(&names, name.as_str()) {
                    let path = concat3(conf.dir(), "/", name.as_str());
                    let warn = concat3("WARNING: ", path.as_str(), " already exists.");
                    proof {
                        assert(warn@ =~= "WARNING: "@ + conf.home@ + "/"@ + name@
                            + " already exists."@);
                    }
                    let mut out: Vec<String> = Vec::new();
                    out.push(warn);
                    proof {
                        assert(out.deep_view() =~= seq![
                            "WARNING: "@ + conf.home@ + "/"@ + name@ + " already exists."@,
                        ]);
                    }
                    let st = Store { conf, phase: Phase::ConfirmingOverwrite { name, print, cipher } };
                    (st, Step { out, op: Op::Ask(String::from_str("Overwrite name? [y|N]")) })
                } else {
                    write_step(conf, name, print, cipher)
                }
            },
            (Phase::ConfirmingOverwrite { name, print, cipher }, Event::Line(l)) => {
                if confirms(l.as_str()) {
                    write_step(conf, name, print, cipher)
                } else {
                    done_with(conf, "Not overwriting")
                }
            },
            (Phase::Writing { name, print }, Event::Ack) => {
                let tgt = Target::Show { print, catch: false };
                let st = Store { conf, phase: Phase::Resolving { frag: name, tgt } };
                (st, Step { out: Vec::new(), op: Op::ReadDir })
            },
            (Phase::DelConfirming { name }, Event::Line(l)) => {
                if confirms(l.as_str()) {
                    let st = Store { conf, phase: Phase::DelRemoving };
                    (st, Step { out: Vec::new(), op: Op::RemoveFile(name) })
                } else {
                    done_with(conf, "Not deleted")
                }
            },
            (Phase::DelRemoving, Event::Ack) => {
                (Store { conf, phase: Phase::Done }, Step { out: Vec::new(), op: Op::Done })
            },
            (Phase::ListListing { prefix }, Event::Listing(names)) => {
                let matched = filter_prefixed(&names, prefix.as_str());
                proof {
                    assert(matched.deep_view().len() == matched@.len());
                }
                if matched.len() == 0 {
                    done_with(conf, "No matches")
                } else {
                    let sorted = sort_names(&matched);
                    (Store { conf, phase: Phase::Done }, Step { out: sorted, op: Op::Done })
                }
            },
            (Phase::GenClipping { pw }, Event::Ack) => {
                let ghost pv = pw@;
                let mut out: Vec<String> = Vec::new();
                out.push(pw);
                proof {
                    assert(out.deep_view() =~= seq![pv]);
                }
                (Store { conf, phase: Phase::Done }, Step { out, op: Op::Done })
            },
            _ => vstd::pervasive::unreached(),
        }
    }
}

/// A step emits a file write only where nothing stands in its way or the
/// user explicitly consented: after an edit's cipher run, after an add whose
/// name is not yet taken, or after a `y` to the overwrite prompt.
pub proof fn lemma_write_needs_consent(pre: Store, ev: Event, post: Store, s: Step)
    requires
        step_rel(pre, ev, post, s),
        s.op matches Op::WriteFile(n, c),
    ensures
        ({
            ||| pre.phase matches Phase::Encrypting { name, print, check } && !check
            ||| pre.phase matches Phase::CheckingDir { name, print, cipher } && (ev matches Event::Listing(names)
                && !names.deep_view().contains(name@))
            ||| pre.phase matches Phase::ConfirmingOverwrite { name, print, cipher } && (ev matches Event::Line(l)
                && confirms_spec(trim_spec(l@)))
        }),
{
}

/// Anything but an explicit `y` to the overwrite prompt ends the command as
/// a successful no-op: nothing is written, and the user is told so.
pub proof fn lemma_overwrite_denied(pre: Store, l: String, post: Store, s: Step)
    requires
        pre.phase matches Phase::ConfirmingOverwrite { name, print, cipher },
        step_rel(pre, Event::Line(l), post, s),
        !confirms_spec(trim_spec(l@)),
    ensures
        post.phase is Done,
        s.op is Done,
        s.out.deep_view() == seq!["Not overwriting"@],
{
}

/// A step emits a file removal only from the delete prompt, on an explicit
/// `y`, and only for the resolved name.
pub proof fn lemma_remove_needs_consent(pre: Store, ev: Event, post: Store, s: Step)
    requires
        step_rel(pre, ev, post, s),
        s.op matches Op::RemoveFile(n),
    ensures
        pre.phase matches Phase::DelConfirming { name } && (ev matches Event::Line(l)
            && confirms_spec(trim_spec(l@))) && (s.op matches Op::RemoveFile(n2) && n2@ == name@),
{
}

/// An explicit `y` to the delete prompt removes exactly the resolved file.
pub proof fn lemma_del_confirmed(pre: Store, l: String, post: Store, s: Step)
    requires
        pre.phase matches Phase::DelConfirming { name },
        step_rel(pre, Event::Line(l), post, s),
        confirms_spec(trim_spec(l@)),
    ensures
        pre.phase matches Phase::DelConfirming { name } ==> (s.op matches Op::RemoveFile(n) && n@
            == name@),
        post.phase is DelRemoving,
{
}

/// Anything but an explicit `y` to the delete prompt leaves the file alone
/// and ends the command as a successful no-op.
pub proof fn lemma_del_denied(pre: Store, l: String, post: Store, s: Step)
    requires
        pre.phase matches Phase::DelConfirming { name },
        step_rel(pre, Event::Line(l), post, s),
        !confirms_spec(trim_spec(l@)),
    ensures
        post.phase is Done,
        s.op is Done,
        s.out.deep_view() == seq!["Not deleted"@],
{
}

/// An edit that supplies neither a username nor a typed password sends the
/// cipher a payload that decodes back to the stored password and username
/// unchanged; only the notes carry the supplied value. This is the per-field
/// merge: an edit changes just what was provided.
pub proof fn lemma_edit_preserves_credentials(pre: Store, pt: String, post: Store, s: Step)
    requires
        pre.phase matches Phase::EditDecrypting { data, name } && data.username is None
            && !data.prompt.0,
        step_rel(pre, Event::Data(pt), post, s),
        has_nl(pt@),
    ensures
        pre.phase matches Phase::EditDecrypting { data, name } ==> (s.op matches Op::Encrypt(p) && {
            let no = match data.notes {
                Some(nn) => nn@,
                None => dec_notes(pt@),
            };
            &&& dec_password(p@) == dec_password(pt@)
            &&& dec_username(p@) == dec_username(pt@)
            &&& dec_notes(p@) == strip_nl(no)
        }),
{
    lemma_dec_no_nl(pt@);
    match pre.phase {
        Phase::EditDecrypting { data, name } => {
            let no = match data.notes {
                Some(nn) => nn@,
                None => dec_notes(pt@),
            };
            lemma_round_trip(dec_password(pt@), dec_username(pt@), no);
        },
        _ => {
        },
    }
}

} // verus!
