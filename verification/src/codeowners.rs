//! The contents of a CODEOWNERS file, in the dialect of each VCS provider.

use vstd::prelude::*;
use vstd::string::StringExecFns;
use crate::paths::{join, join_all, spec_join, spec_join_all};
use crate::text::{decimal_chars, replace_char, spec_decimal, spec_replace_char, string_of};

verus! {

/// The service hosting the repository.
#[derive(Clone, Copy, Debug, PartialEq, Eq, Structural)]
pub enum VcsProvider {
    Bitbucket,
    GitHub,
    GitLab,
    Other,
}

/// The paths a project owns: a list owned by the default owner, or paths
/// each with its own owners.
#[derive(Clone, Debug, PartialEq, Eq)]
pub enum OwnersPaths {
    List(Vec<String>),
    Mapped(Vec<(String, Vec<String>)>),
}

/// Ownership settings of a project.
#[derive(Clone, Debug, PartialEq, Eq)]
pub struct OwnersConfig {
    pub default_owner: Option<String>,
    pub optional: bool,
    pub paths: OwnersPaths,
    pub required_approvals: Option<u8>,
}

/// Ownership settings of the workspace.
#[derive(Clone, Debug, PartialEq, Eq)]
pub struct CodeownersConfig {
    pub global_paths: Vec<(String, Vec<String>)>,
    pub required_approvals: Option<u8>,
}

/// Lines of a CODEOWNERS file being generated.
pub struct CodeownersGenerator {
    pub file_path: String,
    pub lines: Vec<String>,
    pub provider: VcsProvider,
}

/// Where the provider looks for the file, relative to the workspace.
pub open spec fn spec_codeowners_location(provider: VcsProvider) -> Seq<char> {
    match provider {
        VcsProvider::GitHub => ".github/CODEOWNERS"@,
        VcsProvider::GitLab => ".gitlab/CODEOWNERS"@,
        _ => "CODEOWNERS"@,
    }
}

pub open spec fn header_lines() -> Seq<Seq<char>> {
    seq![
        "# Automatically generated by moon. DO NOT MODIFY!"@,
        "# https://moonrepo.dev/docs/guides/codeowners"@,
    ]
}

/// A path as written in the file: forward slashes, spaces escaped.
pub open spec fn spec_format_path(path: Seq<char>) -> Seq<char> {
    spec_replace_char(spec_replace_char(path, '\\', "/"@), ' ', "\\ "@)
}

/// The number of approvals a project asks for: its own, else the
/// workspace's, else none.
pub open spec fn spec_required_approvals(own: Option<u8>, root: Option<u8>) -> nat {
    match own {
        Some(n) => n as nat,
        None => match root {
            Some(n) => n as nat,
            None => 0,
        },
    }
}

pub open spec fn owners_view(o: Option<String>) -> Seq<char> {
    match o {
        Some(s) => s@,
        None => Seq::empty(),
    }
}

/// The header line of a GitLab section.
pub open spec fn spec_gitlab_header(id: Seq<char>, config: OwnersConfig, approvals: nat) -> Seq<char> {
    let h = "["@ + id + "]"@;
    let h = if config.optional {
        "^"@ + h
    } else {
        h
    };
    let h = if approvals > 0 {
        h + "["@ + spec_decimal(approvals) + "]"@
    } else {
        h
    };
    if config.paths is List {
        h + " "@ + owners_view(config.default_owner)
    } else {
        h
    }
}

/// The line of one owned path.
pub open spec fn spec_entry_line(root: Seq<char>, path: Seq<char>, owners: Seq<char>) -> Seq<char> {
    spec_format_path(spec_join(root, path)) + " "@ + owners
}

/// The lines of the owned paths of a project rooted at `root`.
pub open spec fn spec_path_lines(root: Seq<char>, config: OwnersConfig, provider: VcsProvider) -> Seq<Seq<char>> {
    match config.paths {
        OwnersPaths::List(paths) => paths.deep_view().map_values(
            |p: Seq<char>|
                if provider == VcsProvider::GitLab {
                    spec_format_path(spec_join(root, p))
                } else {
                    spec_entry_line(root, p, owners_view(config.default_owner))
                },
        ),
        OwnersPaths::Mapped(map) => map.deep_view().map_values(
            |e: (Seq<char>, Seq<Seq<char>>)|
                if e.1.len() == 0 {
                    spec_entry_line(root, e.0, owners_view(config.default_owner))
                } else {
                    spec_entry_line(root, e.0, spec_join_all(e.1, " "@))
                },
        ),
    }
}

pub open spec fn paths_empty(p: OwnersPaths) -> bool {
    match p {
        OwnersPaths::List(l) => l.len() == 0,
        OwnersPaths::Mapped(m) => m.len() == 0,
    }
}

/// The lines that `add_project_entry` writes: a blank line, the project
/// heading, a provider specific header, then one line per owned path.
pub open spec fn spec_project_lines(id: Seq<char>, source: Seq<char>, config: OwnersConfig, root_approvals: Option<u8>, provider: VcsProvider) -> Seq<Seq<char>> {
    if paths_empty(config.paths) {
        Seq::empty()
    } else {
        let approvals = spec_required_approvals(config.required_approvals, root_approvals);
        let header: Seq<Seq<char>> = match provider {
            VcsProvider::Bitbucket => if approvals > 0 && config.default_owner is Some {
                seq![
                    "Check("@ + owners_view(config.default_owner) + " >= "@ + spec_decimal(approvals)
                        + ")"@,
                ]
            } else {
                Seq::empty()
            },
            VcsProvider::GitLab => seq![spec_gitlab_header(id, config, approvals)],
            _ => Seq::empty(),
        };
        seq![Seq::empty(), "# "@ + id] + header + spec_path_lines(spec_join("/"@, source), config, provider)
    }
}

/// The default owner is needed: for the GitLab header of a list, for each
/// listed path, and for each mapped path without owners.
pub open spec fn needs_default_owner(config: OwnersConfig, provider: VcsProvider) -> bool {
    match config.paths {
        OwnersPaths::List(l) => l.len() > 0,
        OwnersPaths::Mapped(m) => exists|i: int| 0 <= i < m.len() && (#[trigger] m@[i]).1.len() == 0,
    }
}

/// A global path that names owners.
pub open spec fn has_owners() -> spec_fn((Seq<char>, Seq<Seq<char>>)) -> bool {
    |e: (Seq<char>, Seq<Seq<char>>)| e.1.len() > 0
}

/// The line of a global path.
pub open spec fn global_line() -> spec_fn((Seq<char>, Seq<Seq<char>>)) -> Seq<char> {
    |e: (Seq<char>, Seq<Seq<char>>)| spec_format_path(e.0) + " "@ + spec_join_all(e.1, " "@)
}

/// The lines that `add_workspace_entries` writes.
pub open spec fn spec_workspace_lines(global_paths: Seq<(Seq<char>, Seq<Seq<char>>)>) -> Seq<Seq<char>> {
    if global_paths.len() == 0 {
        Seq::empty()
    } else {
        seq![Seq::empty(), "# (workspace)"@] + global_paths.filter(has_owners()).map_values(
            global_line(),
        )
    }
}

fn owner_text(o: &Option<String>) -> (r: String)
    ensures
        r@ == owners_view(*o),
{
    match o {
        Some(s) => s.clone(),
        None => String::new(),
    }
}

fn push_line(lines: &mut Vec<String>, line: String)
    ensures
        final(lines).deep_view() == old(lines).deep_view().push(line@),
{
    let ghost before = lines.deep_view();
    lines.push(line);
    assert(lines.deep_view() =~= before.push(line@));
}

impl CodeownersGenerator {
    /// A generator for the file of a provider in a workspace; the file
    /// starts with a notice that it is generated.
    pub fn new(workspace_root: &str, provider: VcsProvider) -> (g: CodeownersGenerator)
        ensures
            g.file_path@ == spec_join(workspace_root@, spec_codeowners_location(provider)),
            g.lines.deep_view() == header_lines(),
            g.provider == provider,
    {
        let location = match provider {
            VcsProvider::GitHub => ".github/CODEOWNERS",
            VcsProvider::GitLab => ".gitlab/CODEOWNERS",
            _ => "CODEOWNERS",
        };
        let mut lines: Vec<String> = Vec::new();
        push_line(&mut lines, "# Automatically generated by moon. DO NOT MODIFY!".to_owned());
        push_line(&mut lines, "# https://moonrepo.dev/docs/guides/codeowners".to_owned());
        assert(lines.deep_view() =~= header_lines());
        CodeownersGenerator { file_path: join(workspace_root, location), lines, provider }
    }

    /// A path as written in the file.
    pub fn format_path(&self, path: &str) -> (r: String)
        ensures
            r@ == spec_format_path(path@),
    {
        let forward = replace_char(path, '\\', "/");
        replace_char(forward.as_str(), ' ', "\\ ")
    }

    /// Adds the entries of a project whose source is `source`.
    pub fn add_project_entry(&mut self, id: &str, source: &str, config: &OwnersConfig, root_config: &CodeownersConfig)
        requires
            needs_default_owner(*config, old(self).provider) ==> config.default_owner is Some,
        ensures
            final(self).lines.deep_view() == old(self).lines.deep_view() + spec_project_lines(
                id@,
                source@,
                *config,
                root_config.required_approvals,
                old(self).provider,
            ),
            final(self).provider == old(self).provider,
            final(self).file_path == old(self).file_path,
    {
        let ghost start = self.lines.deep_view();
        let empty = match &config.paths {
            OwnersPaths::List(l) => l.len() == 0,
            OwnersPaths::Mapped(m) => m.len() == 0,
        };
        if empty {
            assert(self.lines.deep_view() =~= start + Seq::empty());
            return;
        }
        push_line(&mut self.lines, String::new());
        push_line(&mut self.lines, "# ".to_owned().concat(id));
        let approvals: u8 = match config.required_approvals {
            Some(n) => n,
            None => match root_config.required_approvals {
                Some(n) => n,
                None => 0,
            },
        };
        let ghost after_heading = self.lines.deep_view();
        assert(after_heading =~= start + seq![Seq::<char>::empty(), "# "@ + id@]);
        assert(approvals as nat == spec_required_approvals(config.required_approvals, root_config.required_approvals));
        let ghost header_spec: Seq<Seq<char>> = match self.provider {
            VcsProvider::Bitbucket => if approvals > 0 && config.default_owner is Some {
                seq![
                    "Check("@ + owners_view(config.default_owner) + " >= "@ + spec_decimal(approvals as nat)
                        + ")"@,
                ]
            } else {
                Seq::empty()
            },
            VcsProvider::GitLab => seq![spec_gitlab_header(id@, *config, approvals as nat)],
            _ => Seq::empty(),
        };
        let approvals_text = string_of(&decimal_chars(approvals as usize));
        match self.provider {
            VcsProvider::Bitbucket => {
                if approvals > 0 {
                    if let Some(default_owner) = &config.default_owner {
                        push_line(
                            &mut self.lines,
                            "Check(".to_owned().concat(default_owner.as_str()).concat(" >= ").concat(
                                approvals_text.as_str(),
                            ).concat(")"),
                        );
                    }
                }
            },
            VcsProvider::GitLab => {
                let mut header = "[".to_owned().concat(id).concat("]");
                if config.optional {
                    header = "^".to_owned().concat(header.as_str());
                }
                if approvals > 0 {
                    header = header.concat("[").concat(approvals_text.as_str()).concat("]");
                }
                if let OwnersPaths::List(_) = &config.paths {
                    header = header.concat(" ").concat(owner_text(&config.default_owner).as_str());
                }
                push_line(&mut self.lines, header);
            },
            _ => {},
        }
        let ghost after_header = self.lines.deep_view();
        assert(after_header =~= after_heading + header_spec);
        let root = join("/", source);
        let ghost lines_spec = spec_path_lines(root@, *config, self.provider);
        match &config.paths {
            OwnersPaths::List(paths) => {
                let mut i: usize = 0;
                while i < paths.len()
                    invariant
                        i <= paths.len(),
                        config.paths == OwnersPaths::List(*paths),
                        self.provider == old(self).provider,
                        self.file_path == old(self).file_path,
                        needs_default_owner(*config, self.provider) ==> config.default_owner is Some,
                        lines_spec == spec_path_lines(root@, *config, self.provider),
                        self.lines.deep_view() =~= after_header + lines_spec.take(i as int),
                    decreases paths.len() - i,
                {
                    assert(paths.deep_view()[i as int] == paths[i as int]@);
                    let full = join(root.as_str(), paths[i].as_str());
                    let formatted = self.format_path(full.as_str());
                    let line = if self.provider == VcsProvider::GitLab {
                        formatted
                    } else {
                        formatted.concat(" ").concat(owner_text(&config.default_owner).as_str())
                    };
                    push_line(&mut self.lines, line);
                    i = i + 1;
                    assert(self.lines.deep_view() =~= after_header + lines_spec.take(i as int));
                }
                assert(lines_spec.take(i as int) =~= lines_spec);
            },
            OwnersPaths::Mapped(map) => {
                let mut i: usize = 0;
                while i < map.len()
                    invariant
                        i <= map.len(),
                        config.paths == OwnersPaths::Mapped(*map),
                        self.provider == old(self).provider,
                        self.file_path == old(self).file_path,
                        lines_spec == spec_path_lines(root@, *config, self.provider),
                        self.lines.deep_view() =~= after_header + lines_spec.take(i as int),
                    decreases map.len() - i,
                {
                    assert(map.deep_view()[i as int] == (map[i as int].0@, map[i as int].1.deep_view()));
                    let full = join(root.as_str(), map[i].0.as_str());
                    let formatted = self.format_path(full.as_str());
                    let owners = if map[i].1.len() == 0 {
                        owner_text(&config.default_owner)
                    } else {
                        join_all(&map[i].1, " ")
                    };
                    push_line(&mut self.lines, formatted.concat(" ").concat(owners.as_str()));
                    i = i + 1;
                    assert(self.lines.deep_view() =~= after_header + lines_spec.take(i as int));
                }
                assert(lines_spec.take(i as int) =~= lines_spec);
            },
        }
        proof {
            reveal_strlit("/");
        }
        assert(self.lines.deep_view() =~= start + spec_project_lines(
            id@,
            source@,
            *config,
            root_config.required_approvals,
            self.provider,
        ));
    }

    /// Adds the entries of the workspace: each global path that has owners.
    pub fn add_workspace_entries(&mut self, config: &CodeownersConfig)
        ensures
            final(self).lines.deep_view() == old(self).lines.deep_view() + spec_workspace_lines(config.global_paths.deep_view()),
            final(self).provider == old(self).provider,
            final(self).file_path == old(self).file_path,
    {
        let ghost start = self.lines.deep_view();
        let ghost gp = config.global_paths.deep_view();
        let ghost keep = has_owners();
        let ghost render = global_line();
        if config.global_paths.len() == 0 {
            assert(self.lines.deep_view() =~= start + Seq::empty());
            return;
        }
        push_line(&mut self.lines, String::new());
        push_line(&mut self.lines, "# (workspace)".to_owned());
        let ghost after = self.lines.deep_view();
        let mut i: usize = 0;
        while i < config.global_paths.len()
            invariant
                i <= config.global_paths.len(),
                gp == config.global_paths.deep_view(),
                keep == has_owners(),
                render == global_line(),
                self.provider == old(self).provider,
                self.file_path == old(self).file_path,
                self.lines.deep_view() =~= after + gp.take(i as int).filter(keep).map_values(render),
            decreases config.global_paths.len() - i,
        {
            let ghost prev = self.lines.deep_view();
            assert(gp.take(i + 1).drop_last() =~= gp.take(i as int));
            assert(gp[i as int] == (config.global_paths[i as int].0@, config.global_paths[i as int].1.deep_view()));
            assert(gp.take(i + 1) =~= gp.take(i as int).push(gp[i as int]));
            proof {
                gp.take(i as int).lemma_filter_push(gp[i as int], keep);
            }
            if config.global_paths[i].1.len() > 0 {
                let path = self.format_path(config.global_paths[i].0.as_str());
                let owners = join_all(&config.global_paths[i].1, " ");
                push_line(&mut self.lines, path.concat(" ").concat(owners.as_str()));
                let ghost f = gp.take(i as int).filter(keep);
                assert(gp.take(i + 1).filter(keep) == f.push(gp[i as int]));
                assert(f.push(gp[i as int]).map_values(render) =~= f.map_values(render).push(render(gp[i as int])));
            }
            i = i + 1;
        }
        assert(gp.take(i as int) =~= gp);
    }
}

} // verus!

verus! {

/// Lines written one after another, each ended by a line feed.
pub open spec fn spec_lines_text(lines: Seq<Seq<char>>) -> Seq<char>
    decreases lines.len(),
{
    if lines.len() == 0 {
        Seq::empty()
    } else {
        spec_lines_text(lines.drop_last()) + lines.last() + "\n"@
    }
}

impl CodeownersGenerator {
    /// The text of the file: each line ended by a line feed.
    pub fn contents(&self) -> (r: String)
        ensures
            r@ == spec_lines_text(self.lines.deep_view()),
    {
        let mut out: Vec<char> = Vec::new();
        let mut i: usize = 0;
        while i < self.lines.len()
            invariant
                i <= self.lines.len(),
                out@ == spec_lines_text(self.lines.deep_view().take(i as int)),
            decreases self.lines.len() - i,
        {
            assert(self.lines.deep_view().take(i + 1).drop_last() =~= self.lines.deep_view().take(i as int));
            assert(self.lines.deep_view()[i as int] == self.lines[i as int]@);
            crate::text::append_str(&mut out, self.lines[i].as_str());
            crate::text::append_str(&mut out, "\n");
            i = i + 1;
        }
        assert(self.lines.deep_view().take(i as int) =~= self.lines.deep_view());
        crate::text::string_of(&out)
    }
}

} // verus!

verus! {

/// The approvals a project asks for are its own whenever it sets them: the
/// workspace's setting then changes nothing in its entry. When it does not
/// set them, its entry is the one it would have with the workspace's
/// setting as its own and none in the workspace.
pub proof fn lemma_project_approvals(
    id: Seq<char>,
    source: Seq<char>,
    config: OwnersConfig,
    root1: Option<u8>,
    root2: Option<u8>,
    provider: VcsProvider,
)
    ensures
        config.required_approvals is Some ==> spec_project_lines(id, source, config, root1, provider)
            == spec_project_lines(id, source, config, root2, provider),
        config.required_approvals is None ==> spec_project_lines(id, source, config, root1, provider)
            == spec_project_lines(id, source, OwnersConfig { required_approvals: root1, ..config }, None, provider),
{
}

/// The GitLab section of a required project that lists its paths: `[id]`,
/// then `[n]` for the project's own number of approvals `n` when it is not
/// zero (nothing more when it is), then a space and the default owner.
pub proof fn lemma_gitlab_section_header(id: Seq<char>, source: Seq<char>, config: OwnersConfig, root: Option<u8>)
    requires
        config.paths is List,
        config.paths->List_0.len() > 0,
        !config.optional,
        config.required_approvals is Some,
    ensures
        ({
            let n = config.required_approvals->0;
            let lines = spec_project_lines(id, source, config, root, VcsProvider::GitLab);
            &&& lines.len() > 2
            &&& n > 0 ==> lines[2] == "["@ + id + "]["@ + spec_decimal(n as nat) + "] "@ + owners_view(config.default_owner)
            &&& n == 0 ==> lines[2] == "["@ + id + "] "@ + owners_view(config.default_owner)
        }),
{
    reveal_strlit("[");
    reveal_strlit("]");
    reveal_strlit("][");
    reveal_strlit("] ");
    reveal_strlit(" ");
    let n = config.required_approvals->0;
    let lines = spec_project_lines(id, source, config, root, VcsProvider::GitLab);
    assert(lines[2] == spec_gitlab_header(id, config, n as nat));
    if n > 0 {
        assert(("["@ + id + "]"@ + "["@ + spec_decimal(n as nat) + "]"@) + " "@ + owners_view(config.default_owner)
            =~= "["@ + id + "]["@ + spec_decimal(n as nat) + "] "@ + owners_view(config.default_owner));
    } else {
        assert(("["@ + id + "]"@) + " "@ + owners_view(config.default_owner) =~= "["@ + id + "] "@ + owners_view(
            config.default_owner,
        ));
    }
}

} // verus!
