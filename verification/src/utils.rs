//! Small decisions shared by the commands.

use vstd::prelude::*;

use crate::ip::{ip_address_text, IpAddressType};
use crate::session::{kept, say, Log, Note};
use crate::structs::{LayerModel, SpecModel, SpecYaml};
use crate::text::{
    ascii_small, begins, cat2, cat4, cat6, chars_of, decimal, is_word, number, same, same_ignoring_case,
    strip_suffix, text_of, trim, trimmed, without_suffix,
};

verus! {

// ---------------------------------------------------------------------------
// Tilde expansion
// ---------------------------------------------------------------------------

/// The home directory that the environment names: `HOME`, else `USERPROFILE`,
/// else `HOMEDRIVE` followed by `HOMEPATH`.
pub open spec fn home_of(
    home: Option<Seq<char>>,
    user_profile: Option<Seq<char>>,
    home_drive: Option<Seq<char>>,
    home_path: Option<Seq<char>>,
) -> Option<Seq<char>> {
    if home is Some {
        home
    } else if user_profile is Some {
        user_profile
    } else {
        match (home_drive, home_path) {
            (Some(drive), Some(path)) => Some(drive + path),
            _ => None,
        }
    }
}

/// What follows the tilde of a path that stands for the home directory or for
/// something under it.
pub open spec fn after_tilde(path: Seq<char>) -> Option<Seq<char>> {
    if path == "~"@ {
        Some(Seq::empty())
    } else if "~/"@.is_prefix_of(path) || "~\\"@.is_prefix_of(path) {
        Some(path.skip(1))
    } else {
        None
    }
}

/// `path` with a leading tilde replaced by `home`, or by `.` where there is
/// no home directory.
pub open spec fn expanded(path: Seq<char>, home: Option<Seq<char>>) -> Seq<char> {
    match after_tilde(path) {
        Some(rest) => match home {
            Some(h) => h + rest,
            None => "."@ + rest,
        },
        None => path,
    }
}

/// A path without a leading tilde is left alone.
pub proof fn law_no_tilde(path: Seq<char>, home: Option<Seq<char>>)
    requires
        path.len() == 0 || path[0] != '~',
    ensures
        expanded(path, home) == path,
{
    reveal_strlit("~");
    reveal_strlit("~/");
    reveal_strlit("~\\");
    if "~/"@.is_prefix_of(path) {
        assert(path[0] == "~/"@[0]);
    }
    if "~\\"@.is_prefix_of(path) {
        assert(path[0] == "~\\"@[0]);
    }
}

/// Expanding twice is the same as expanding once, where the home directory
/// does not itself begin with a tilde.
pub proof fn law_expanded_once(path: Seq<char>, home: Option<Seq<char>>)
    requires
        home matches Some(h) ==> h.len() > 0 && h[0] != '~',
    ensures
        expanded(expanded(path, home), home) == expanded(path, home),
{
    reveal_strlit(".");
    if after_tilde(path) is Some {
        law_no_tilde(expanded(path, home), home);
    }
}

/// A tilde that is the whole path, or that a slash or a backslash follows, is
/// replaced by the home directory, or by a dot where there is none; what
/// follows the tilde stays. Every other path is left alone.
pub proof fn law_tilde_expanded(path: Seq<char>, rest: Seq<char>, home: Option<Seq<char>>)
    ensures
        rest.len() == 0 || rest[0] == '/' || rest[0] == '\\' ==> expanded(seq!['~'] + rest, home) == (match home {
            Some(h) => h,
            None => seq!['.'],
        }) + rest,
        !(path.len() > 0 && path[0] == '~' && (path.len() == 1 || path[1] == '/' || path[1] == '\\'))
            ==> expanded(path, home) == path,
{
    reveal_strlit("~");
    reveal_strlit("~/");
    reveal_strlit("~\\");
    reveal_strlit(".");
    assert("."@ =~= seq!['.']);
    let whole = seq!['~'] + rest;
    if rest.len() == 0 {
        assert(whole =~= "~"@);
        assert(rest =~= Seq::<char>::empty());
    } else {
        assert(whole.len() != "~"@.len());
        assert(whole.skip(1) =~= rest);
        assert(whole.subrange(0, 2) =~= seq!['~', rest[0]]);
        if rest[0] == '/' {
            assert("~/"@ =~= whole.subrange(0, 2));
        }
        if rest[0] == '\\' {
            assert("~\\"@ =~= whole.subrange(0, 2));
        }
    }
    if path == "~"@ {
        assert(path[0] == '~');
    }
    if "~/"@.is_prefix_of(path) {
        assert("~/"@ =~= path.subrange(0, 2));
        assert(path[0] == "~/"@[0] && path[1] == "~/"@[1]);
    }
    if "~\\"@.is_prefix_of(path) {
        assert("~\\"@ =~= path.subrange(0, 2));
        assert(path[0] == "~\\"@[0] && path[1] == "~\\"@[1]);
    }
}

/// The home directory is what `HOME` says; without it what `USERPROFILE` says;
/// without both what `HOMEDRIVE` and `HOMEPATH` say together, where both are
/// there; and there is none otherwise.
pub proof fn law_home(a: Seq<char>, b: Option<Seq<char>>, c: Option<Seq<char>>, d: Option<Seq<char>>)
    ensures
        home_of(Some(a), b, c, d) == Some(a),
        home_of(None, Some(a), c, d) == Some(a),
        home_of(None, None, Some(a), d) == (match d {
            Some(path) => Some(a + path),
            None => None,
        }),
        home_of(None, None, None, d) is None,
{
}

/// The home directory that the environment names.
pub fn home_dir(
    home: Option<String>,
    user_profile: Option<String>,
    home_drive: Option<String>,
    home_path: Option<String>,
) -> (r: Option<String>)
    ensures
        r.deep_view() == home_of(
            home.deep_view(),
            user_profile.deep_view(),
            home_drive.deep_view(),
            home_path.deep_view(),
        ),
{
    if home.is_some() {
        home
    } else if user_profile.is_some() {
        user_profile
    } else {
        match (home_drive, home_path) {
            (Some(drive), Some(path)) => Some(cat2(drive.as_str(), path.as_str())),
            _ => None,
        }
    }
}

/// `path` with a leading tilde replaced by the home directory.
pub fn expand_tilde(path: &str, home: &Option<String>) -> (r: String)
    ensures
        r@ == expanded(path@, home.deep_view()),
{
    proof {
        reveal_strlit("~");
        reveal_strlit("~/");
        reveal_strlit("~\\");
    }
    let rest = if same(path, "~") {
        String::new()
    } else if begins(path, "~/") || begins(path, "~\\") {
        let chars = chars_of(path);
        assert(path@.skip(1) =~= path@.subrange(1, path@.len() as int));
        text_of(&chars, 1, chars.len())
    } else {
        return path.to_owned();
    };
    match home {
        Some(h) => cat2(h.as_str(), rest.as_str()),
        None => cat2(".", rest.as_str()),
    }
}

// ---------------------------------------------------------------------------
// SSH keys
// ---------------------------------------------------------------------------

/// The private key that belongs to a public key: the same path without
/// `.pub`, expanded.
pub open spec fn private_key_of(public_key: Seq<char>, home: Option<Seq<char>>) -> Seq<char> {
    expanded(without_suffix(public_key, ".pub"@), home)
}

/// The private key lies beside the public key: its path is that of the public
/// key without `.pub`, and the same path where that is not how it ends.
pub proof fn law_private_key_lies_beside(stem: Seq<char>, path: Seq<char>, home: Option<Seq<char>>)
    ensures
        private_key_of(stem + ".pub"@, home) == expanded(stem, home),
        !".pub"@.is_suffix_of(path) ==> private_key_of(path, home) == expanded(path, home),
{
    let whole = stem + ".pub"@;
    assert(".pub"@.is_suffix_of(whole)) by {
        assert(whole.subrange(whole.len() - ".pub"@.len(), whole.len() as int) =~= ".pub"@);
    }
    assert(whole.take(whole.len() - ".pub"@.len()) =~= stem);
}

/// The path of the private key that belongs to a public key.
pub fn private_key_path(public_key: &str, home: &Option<String>) -> (r: String)
    ensures
        r@ == private_key_of(public_key@, home.deep_view()),
{
    expand_tilde(strip_suffix(public_key, ".pub").as_str(), home)
}

/// Judge what came of reading the public key at `path`, already expanded: its
/// content without surrounding white space, or why there is none.
pub fn read_ssh_public_key(path: &str, read: Result<String, String>) -> (r: Result<String, String>)
    ensures
        match read {
            Ok(content) => r matches Ok(key) && key@ == trimmed(content@),
            Err(e) => r matches Err(message) && message@ == "Cannot read SSH public key from '"@ + path@
                + "': "@ + e@,
        },
{
    match read {
        Ok(content) => Ok(trim(content.as_str())),
        Err(e) => Err(cat4("Cannot read SSH public key from '", path, "': ", e.as_str())),
    }
}

// ---------------------------------------------------------------------------
// Questions
// ---------------------------------------------------------------------------

/// How a question is shown.
pub open spec fn prompt(question: Seq<char>) -> Seq<char> {
    question + " [y/N]: "@
}

/// Whether a line that the operator typed means yes.
pub open spec fn means_yes(line: Seq<char>) -> bool {
    same_ignoring_case(trimmed(line), "y"@) || same_ignoring_case(trimmed(line), "yes"@)
}

/// How a question is shown.
pub fn prompt_text(question: &str) -> (r: String)
    ensures
        r@ == prompt(question@),
{
    cat2(question, " [y/N]: ")
}

/// Whether a line that the operator typed means yes.
pub fn prompt_yes_no(line: &str) -> (r: bool)
    ensures
        r == means_yes(line@),
{
    let answer = trim(line);
    is_word(answer.as_str(), "y") || is_word(answer.as_str(), "yes")
}

/// An empty line means no.
pub proof fn law_default_is_no(line: Seq<char>)
    requires
        trimmed(line).len() == 0,
    ensures
        !means_yes(line),
{
    reveal_strlit("y");
    reveal_strlit("yes");
}

/// Of all lines, exactly those mean yes that hold, between white space, the
/// letter Y or the word YES in any case.
pub proof fn law_only_yes_means_yes(line: Seq<char>)
    ensures
        means_yes(line) <==> {
            let t = trimmed(line);
            ||| t.len() == 1 && (t[0] == 'y' || t[0] == 'Y')
            ||| {
                &&& t.len() == 3
                &&& t[0] == 'y' || t[0] == 'Y'
                &&& t[1] == 'e' || t[1] == 'E'
                &&& t[2] == 's' || t[2] == 'S'
            }
        },
{
    reveal_strlit("y");
    reveal_strlit("yes");
    let t = trimmed(line);
    assert(same_ignoring_case(t, "y"@) <==> t.len() == 1 && ascii_small(t[0]) == 'y');
    if t.len() == 3 && ascii_small(t[0]) == 'y' && ascii_small(t[1]) == 'e' && ascii_small(t[2]) == 's' {
        assert forall|i: int| 0 <= i < t.len() implies ascii_small(#[trigger] t[i]) == "yes"@[i] by {
            assert(i == 0 || i == 1 || i == 2);
        }
    }
    if same_ignoring_case(t, "yes"@) {
        assert(ascii_small(t[0]) == "yes"@[0]);
        assert(ascii_small(t[1]) == "yes"@[1]);
        assert(ascii_small(t[2]) == "yes"@[2]);
    }
}

/// A question is shown with what answers it takes behind it.
pub proof fn law_prompt_keeps_question(question: Seq<char>)
    ensures
        question.is_prefix_of(prompt(question)),
        prompt(question).skip(question.len() as int) == " [y/N]: "@,
{
    assert(prompt(question).subrange(0, question.len() as int) =~= question);
    assert(prompt(question).skip(question.len() as int) =~= " [y/N]: "@);
}

// ---------------------------------------------------------------------------
// Specs
// ---------------------------------------------------------------------------

/// The line that shows the address type of one layer of a spec.
pub open spec fn layer_line(spec_name: Seq<char>, i: nat, layer: LayerModel) -> Seq<char> {
    "  spec '"@ + spec_name + "' ["@ + decimal(i) + "]: ip-address = "@ + (match layer.ip_address {
        Some(kind) => ip_address_text(kind),
        None => "private (default)"@,
    })
}

/// The lines for the first `n` layers of a spec.
pub open spec fn layer_lines(spec_name: Seq<char>, layers: Seq<LayerModel>, n: nat, log: Log) -> Log
    decreases n,
{
    if n == 0 {
        log
    } else {
        layer_lines(spec_name, layers, (n - 1) as nat, log).push(
            Note::Say(layer_line(spec_name, (n - 1) as nat, layers[n - 1])),
        )
    }
}

/// The lines for all layers of all specs.
pub open spec fn spec_lines(specs: Seq<SpecModel>, log: Log) -> Log
    decreases specs.len(),
{
    if specs.len() == 0 {
        log
    } else {
        let last = specs.last();
        layer_lines(last.name, last.config, last.config.len(), spec_lines(specs.drop_last(), log))
    }
}

/// Show the address type of every layer of every spec.
pub fn validate_specs(specs: &Vec<SpecYaml>, log: &mut Vec<Note<String>>)
    ensures
        final(log).deep_view() == spec_lines(specs.deep_view(), old(log).deep_view()),
{
    let ghost all = specs.deep_view();
    let ghost start = log.deep_view();
    let mut i: usize = 0;
    while i < specs.len()
        invariant
            i <= specs@.len(),
            all == specs.deep_view(),
            log.deep_view() == spec_lines(all.take(i as int), start),
        decreases specs@.len() - i,
    {
        assert(all.take(i + 1).drop_last() =~= all.take(i as int));
        assert(all.take(i + 1).last() == specs@[i as int].deep_view());
        let spec = &specs[i];
        let ghost layers = spec.config.deep_view();
        let ghost before = log.deep_view();
        let mut k: usize = 0;
        while k < spec.config.len()
            invariant
                k <= spec.config@.len(),
                layers == spec.config.deep_view(),
                log.deep_view() == layer_lines(spec.name@, layers, k as nat, before),
            decreases spec.config@.len() - k,
        {
            assert(layers[k as int] == spec.config@[k as int].deep_view());
            let kind = match &spec.config[k].ip_address {
                Some(ip) => ip.to_string(),
                None => "private (default)".to_owned(),
            };
            say(
                log,
                cat6(
                    "  spec '",
                    spec.name.as_str(),
                    "' [",
                    number(k as u64).as_str(),
                    "]: ip-address = ",
                    kind.as_str(),
                ),
            );
            k = k + 1;
        }
        i = i + 1;
    }
    assert(all.take(i as int) =~= all);
}

/// A public key that could be read is what its file holds without the white
/// space around it. A failure to read it is a failure that names the path and
/// the reason.
pub proof fn law_public_key_is_read(path: &str, read: Result<String, String>, r: Result<String, String>)
    requires
        call_ensures(read_ssh_public_key, (path, read), r),
    ensures
        read matches Ok(content) ==> (r matches Ok(key) && key@ == trimmed(content@)),
        read matches Err(e) ==> (r matches Err(message) && message@ == "Cannot read SSH public key from '"@ + path@
            + "': "@ + e@),
{
}

proof fn lemma_layer_lines(name: Seq<char>, layers: Seq<LayerModel>, n: nat, k: int, log: Log)
    requires
        n <= layers.len(),
    ensures
        kept(log, layer_lines(name, layers, n, log)),
        layer_lines(name, layers, n, log).len() == log.len() + n,
        0 <= k < n ==> layer_lines(name, layers, n, log)[log.len() + k] == Note::Say(
            "  spec '"@ + name + "' ["@ + decimal(k as nat) + "]: ip-address = "@ + (match layers[k].ip_address {
                Some(IpAddressType::Public) => "public"@,
                Some(IpAddressType::Private) => "private"@,
                None => "private (default)"@,
            }),
        ),
    decreases n,
{
    if n > 0 {
        lemma_layer_lines(name, layers, (n - 1) as nat, k, log);
    }
}

/// Every layer of every spec is shown, with the name of the spec, its position
/// and its address type.
pub proof fn law_every_layer_shown(specs: Seq<SpecModel>, i: int, k: int, log: Log)
    ensures
        kept(log, spec_lines(specs, log)),
        0 <= i < specs.len() && 0 <= k < specs[i].config.len() ==> spec_lines(specs, log).contains(
            Note::Say(
                "  spec '"@ + specs[i].name + "' ["@ + decimal(k as nat) + "]: ip-address = "@ + (
                match specs[i].config[k].ip_address {
                    Some(IpAddressType::Public) => "public"@,
                    Some(IpAddressType::Private) => "private"@,
                    None => "private (default)"@,
                }),
            ),
        ),
    decreases specs.len(),
{
    if specs.len() > 0 {
        let before = spec_lines(specs.drop_last(), log);
        let after = spec_lines(specs, log);
        let last = specs.last();
        law_every_layer_shown(specs.drop_last(), i, k, log);
        lemma_layer_lines(last.name, last.config, last.config.len(), k, before);
        if 0 <= i < specs.len() && 0 <= k < specs[i].config.len() {
            let line = Note::Say(
                "  spec '"@ + specs[i].name + "' ["@ + decimal(k as nat) + "]: ip-address = "@ + (
                match specs[i].config[k].ip_address {
                    Some(IpAddressType::Public) => "public"@,
                    Some(IpAddressType::Private) => "private"@,
                    None => "private (default)"@,
                }),
            );
            if i == specs.len() - 1 {
                assert(after[before.len() + k] == line);
            } else {
                assert(specs.drop_last()[i] == specs[i]);
                let j = choose|j: int| 0 <= j < before.len() && before[j] == line;
                assert(after[j] == line);
            }
        }
    }
}

} // verus!
