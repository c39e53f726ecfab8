//! The package suggestions as independent sections: each manager's answer
//! gives its lines on its own, and the report is those lines in a fixed order.
use vstd::prelude::*;
use crate::render::LineView;
use crate::render::labeled;
use crate::report::{install_prefix, suggestion_lines_spec, suggestions_lines_spec};
use crate::text::contains_seq;
use crate::suggest::{PackageReplies, PackageSource, query_spec, suggestion_of, suggestions_spec};

verus! {

/// The answers with only `source`'s kept: every other package manager is
/// taken to have failed to start.
pub open spec fn only_reply(replies: PackageReplies, source: PackageSource) -> PackageReplies {
    PackageReplies {
        pacman: if source == PackageSource::Pacman { replies.pacman } else { None },
        apt: if source == PackageSource::Apt { replies.apt } else { None },
        dnf: if source == PackageSource::Dnf { replies.dnf } else { None },
        brew: if source == PackageSource::Brew { replies.brew } else { None },
        cargo: if source == PackageSource::Cargo { replies.cargo } else { None },
        npm: if source == PackageSource::Npm { replies.npm } else { None },
    }
}

/// The lines that `source`'s answer alone gives.
pub open spec fn manager_section(cmd: Seq<char>, replies: PackageReplies, source: PackageSource) -> Seq<LineView> {
    suggestions_lines_spec(suggestions_spec(cmd, only_reply(replies, source)))
}

/// The lines of two lists of suggestions are the lines of each, in order.
pub proof fn lemma_suggestion_lines_concat(
    a: Seq<(PackageSource, Seq<Seq<char>>)>,
    b: Seq<(PackageSource, Seq<Seq<char>>)>,
)
    ensures
        suggestions_lines_spec(a + b) == suggestions_lines_spec(a) + suggestions_lines_spec(b),
    decreases b.len(),
{
    if b.len() == 0 {
        assert(a + b =~= a);
        assert(suggestions_lines_spec(b) =~= Seq::<LineView>::empty());
        assert(suggestions_lines_spec(a) + suggestions_lines_spec(b) =~= suggestions_lines_spec(a));
    } else {
        lemma_suggestion_lines_concat(a, b.drop_last());
        assert((a + b).drop_last() =~= a + b.drop_last());
        assert((a + b).last() == b.last());
    }
}

/// The package suggestions are independent sections in a fixed order: what is
/// printed is the section of pacman's answer taken alone, then apt's, dnf's,
/// brew's, cargo's and npm's; a manager that failed or named nothing adds no
/// line and does not affect the others.
pub proof fn lemma_suggestion_sections(cmd: Seq<char>, replies: PackageReplies)
    ensures
        suggestions_lines_spec(suggestions_spec(cmd, replies)) == manager_section(
            cmd,
            replies,
            PackageSource::Pacman,
        ) + manager_section(cmd, replies, PackageSource::Apt) + manager_section(cmd, replies, PackageSource::Dnf)
            + manager_section(cmd, replies, PackageSource::Brew) + manager_section(
            cmd,
            replies,
            PackageSource::Cargo,
        ) + manager_section(cmd, replies, PackageSource::Npm),
        forall|s: PackageSource|
            answer_fails(#[trigger] only_reply(replies, s), s) ==> manager_section(cmd, replies, s)
                == Seq::<LineView>::empty(),
{
    let e = Seq::<(PackageSource, Seq<Seq<char>>)>::empty();
    let p = suggestion_of(PackageSource::Pacman, cmd, replies.pacman);
    let a = suggestion_of(PackageSource::Apt, cmd, replies.apt);
    let d = suggestion_of(PackageSource::Dnf, cmd, replies.dnf);
    let b = suggestion_of(PackageSource::Brew, cmd, replies.brew);
    let c = suggestion_of(PackageSource::Cargo, cmd, replies.cargo);
    let n = suggestion_of(PackageSource::Npm, cmd, replies.npm);
    assert forall|s: PackageSource| #![auto] suggestions_spec(cmd, only_reply(replies, s)) == match s {
        PackageSource::Pacman => p,
        PackageSource::Apt => a,
        PackageSource::Dnf => d,
        PackageSource::Brew => b,
        PackageSource::Cargo => c,
        PackageSource::Npm => n,
    } by {
        let o = only_reply(replies, s);
        let mine = match s {
            PackageSource::Pacman => p,
            PackageSource::Apt => a,
            PackageSource::Dnf => d,
            PackageSource::Brew => b,
            PackageSource::Cargo => c,
            PackageSource::Npm => n,
        };
        assert(suggestions_spec(cmd, o) =~= mine);
    }
    lemma_suggestion_lines_concat(p, a);
    lemma_suggestion_lines_concat(p + a, d);
    lemma_suggestion_lines_concat(p + a + d, b);
    lemma_suggestion_lines_concat(p + a + d + b, c);
    lemma_suggestion_lines_concat(p + a + d + b + c, n);
    assert forall|s: PackageSource|
        answer_fails(#[trigger] only_reply(replies, s), s) implies manager_section(cmd, replies, s)
            == Seq::<LineView>::empty() by {
        let o = only_reply(replies, s);
        assert(suggestions_spec(cmd, o) =~= e);
    }
}

/// `source`'s answer in `replies` is missing or unsuccessful.
pub open spec fn answer_fails(replies: PackageReplies, source: PackageSource) -> bool {
    let r = match source {
        PackageSource::Pacman => replies.pacman,
        PackageSource::Apt => replies.apt,
        PackageSource::Dnf => replies.dnf,
        PackageSource::Brew => replies.brew,
        PackageSource::Cargo => replies.cargo,
        PackageSource::Npm => replies.npm,
    };
    match r {
        Some(out) => !out.success,
        None => true,
    }
}

/// Each package line of a suggestion is the install command of the very
/// package manager that answered, followed by the package: `sudo pacman -S`
/// for pacman, `sudo apt install` for apt, `sudo dnf install` for dnf, `brew
/// install`, `cargo install` and `npm install -g`; and the command names the
/// program that was asked (`apt` for `apt-file`).
pub proof fn lemma_install_lines(s: PackageSource, cmd: Seq<char>, pkgs: Seq<Seq<char>>)
    ensures
        suggestion_lines_spec(s, pkgs).len() == pkgs.len() + 2,
        forall|k: int|
            0 <= k < pkgs.len() ==> suggestion_lines_spec(s, pkgs)[k + 2] == seq![
                (
                    match s {
                        PackageSource::Pacman => "    sudo pacman -S "@,
                        PackageSource::Apt => "    sudo apt install "@,
                        PackageSource::Dnf => "    sudo dnf install "@,
                        PackageSource::Brew => "    brew install "@,
                        PackageSource::Cargo => "    cargo install "@,
                        PackageSource::Npm => "    npm install -g "@,
                    },
                    crate::render::Style::Plain,
                ),
                (#[trigger] pkgs[k], crate::render::Style::Bold),
            ],
        contains_seq(
            install_prefix(s),
            if s == PackageSource::Apt {
                "apt"@
            } else {
                query_spec(s, cmd).0
            },
        ),
{
    let lines = suggestion_lines_spec(s, pkgs);
    assert forall|k: int| 0 <= k < pkgs.len() implies lines[k + 2] == labeled(
        install_prefix(s),
        #[trigger] pkgs[k],
        crate::render::Style::Bold,
    ) by {}
    reveal_strlit("    sudo pacman -S ");
    reveal_strlit("    sudo apt install ");
    reveal_strlit("    sudo dnf install ");
    reveal_strlit("    brew install ");
    reveal_strlit("    cargo install ");
    reveal_strlit("    npm install -g ");
    reveal_strlit("pacman");
    reveal_strlit("apt");
    reveal_strlit("dnf");
    reveal_strlit("brew");
    reveal_strlit("cargo");
    reveal_strlit("npm");
    let p = install_prefix(s);
    let name = if s == PackageSource::Apt { "apt"@ } else { query_spec(s, cmd).0 };
    let at: int = match s {
        PackageSource::Pacman | PackageSource::Apt | PackageSource::Dnf => 9,
        _ => 4,
    };
    assert(p.subrange(at, at + name.len()) =~= name);
}

} // verus!
