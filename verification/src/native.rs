use crate::text::{chars_of, string_of};
use vstd::prelude::*;

verus! {

/// A user's page.
#[derive(Debug)]
pub struct User {
    pub user: String,
}

/// A repository's page.
#[derive(Debug)]
pub struct Repo {
    pub user: String,
    pub repo: String,
}

/// A file's page.
#[derive(Debug)]
pub struct File {
    pub user: String,
    pub repo: String,
    pub tree: String,
    pub path: String,
}

/// A folder's page; no path means the repository's top folder.
#[derive(Debug)]
pub struct Folder {
    pub user: String,
    pub repo: String,
    pub tree: String,
    pub path: Option<String>,
}

/// A page on GitHub that the browser extension points at.
#[derive(Debug)]
pub enum Link {
    User(User),
    Repo(Repo),
    Folder(Folder),
    File(File),
}

/// A page of something that can be opened in a terminal.
#[derive(Debug)]
pub enum FolderLike {
    User(User),
    Repo(Repo),
    Folder(Folder),
}

/// A request from the browser extension.
#[derive(Debug)]
pub enum Message {
    OpenInEditor(Link),
    RevealInFinder(Link),
    OpenInTerminal(FolderLike),
    OpenFile(File),
}

/// A program to start, with its arguments.
#[derive(Debug)]
pub struct Command {
    pub program: String,
    pub args: Vec<String>,
}

/// The folder under which the mounted repositories are reached.
pub open spec fn mount_root() -> Seq<char> {
    "/Users/samdenty/Projects/repos/test/"@
}

/// `a/b`.
pub open spec fn join2(a: Seq<char>, b: Seq<char>) -> Seq<char> {
    a + "/"@ + b
}

/// The path of a folder's page: user, repository and path inside it.
pub open spec fn folder_path(f: Folder) -> Seq<char> {
    join2(join2(f.user@, f.repo@), match f.path { Some(p) => p@, None => Seq::<char>::empty() })
}

/// The path that the editor opens for a link: the user page opens `/`.
pub open spec fn editor_path_spec(link: Link) -> Seq<char> {
    match link {
        Link::Repo(r) => join2(r.user@, r.repo@),
        Link::File(f) => join2(join2(f.user@, f.repo@), f.path@),
        Link::Folder(f) => folder_path(f),
        Link::User(_) => "/"@,
    }
}

/// The path that the Finder reveals for a link.
pub open spec fn finder_path_spec(link: Link) -> Seq<char> {
    match link {
        Link::User(u) => u.user@,
        Link::Repo(r) => join2(r.user@, r.repo@),
        Link::File(f) => join2(join2(f.user@, f.repo@), f.path@),
        Link::Folder(f) => folder_path(f),
    }
}

fn join2_exec(a: &str, b: &str) -> (res: String)
    ensures
        res@ == join2(a@, b@),
{
    let mut v = chars_of(a);
    let mut s = chars_of("/");
    let mut w = chars_of(b);
    v.append(&mut s);
    v.append(&mut w);
    string_of(v.as_slice())
}

fn folder_path_exec(f: &Folder) -> (res: String)
    ensures
        res@ == folder_path(*f),
{
    let head = join2_exec(f.user.as_str(), f.repo.as_str());
    match &f.path {
        Some(p) => join2_exec(head.as_str(), p.as_str()),
        None => {
            let empty = "";
            proof {
                reveal_strlit("");
            }
            assert(empty@ =~= Seq::<char>::empty());
            join2_exec(head.as_str(), empty)
        },
    }
}

/// The path that the editor opens for a link.
pub fn editor_path(link: &Link) -> (res: String)
    ensures
        res@ == editor_path_spec(*link),
{
    match link {
        Link::Repo(r) => join2_exec(r.user.as_str(), r.repo.as_str()),
        Link::File(f) => {
            let head = join2_exec(f.user.as_str(), f.repo.as_str());
            join2_exec(head.as_str(), f.path.as_str())
        },
        Link::Folder(f) => folder_path_exec(f),
        Link::User(_) => "/".to_string(),
    }
}

/// The path that the Finder reveals for a link.
pub fn finder_path(link: &Link) -> (res: String)
    ensures
        res@ == finder_path_spec(*link),
{
    match link {
        Link::User(u) => u.user.clone(),
        Link::Repo(r) => join2_exec(r.user.as_str(), r.repo.as_str()),
        Link::File(f) => {
            let head = join2_exec(f.user.as_str(), f.repo.as_str());
            join2_exec(head.as_str(), f.path.as_str())
        },
        Link::Folder(f) => folder_path_exec(f),
    }
}

/// The program that a request starts: the editor on the link's path, or
/// `open` on it (with `-R` to reveal a file); other requests start nothing.
pub open spec fn command_spec(message: Message) -> Option<(Seq<char>, Seq<Seq<char>>)> {
    match message {
        Message::OpenInEditor(link) => Some((
            "/usr/local/bin/code-insiders"@,
            seq![mount_root() + editor_path_spec(link)],
        )),
        Message::RevealInFinder(link) => Some((
            "open"@,
            (if link is File { seq!["-R"@] } else { Seq::empty() }) + seq![mount_root() + finder_path_spec(link)],
        )),
        _ => None,
    }
}

fn under_root(path: &str) -> (res: String)
    ensures
        res@ == mount_root() + path@,
{
    let mut v = chars_of("/Users/samdenty/Projects/repos/test/");
    let mut w = chars_of(path);
    v.append(&mut w);
    string_of(v.as_slice())
}

/// The program that a request starts, if any.
pub fn command_for(message: &Message) -> (res: Option<Command>)
    ensures
        match command_spec(*message) {
            Some((program, args)) => res matches Some(c) && c.program@ == program
                && c.args@.map_values(|a: String| a@) == args,
            None => res is None,
        },
{
    match message {
        Message::OpenInEditor(link) => {
            let path = editor_path(link);
            let arg = under_root(path.as_str());
            let ghost a = arg@;
            let args = vec![arg];
            assert(args@.map_values(|a: String| a@) =~= seq![a]);
            Some(Command { program: "/usr/local/bin/code-insiders".to_string(), args })
        },
        Message::RevealInFinder(link) => {
            let path = finder_path(link);
            let mut args: Vec<String> = Vec::new();
            let is_file = match link {
                Link::File(_) => true,
                _ => false,
            };
            if is_file {
                args.push("-R".to_string());
            }
            let arg = under_root(path.as_str());
            let ghost before = args@;
            args.push(arg);
            assert(args@.map_values(|a: String| a@) =~= before.map_values(|a: String| a@).push(arg@));
            assert(args@.map_values(|a: String| a@) =~= (if link is File { seq!["-R"@] } else { Seq::<Seq<char>>::empty() })
                + seq![mount_root() + finder_path_spec(*link)]);
            Some(Command { program: "open".to_string(), args })
        },
        _ => None,
    }
}


/// Opening a folder's page in the editor and revealing it in the Finder both
/// go to the same place under the mount root: the user's folder, then the
/// repository's, then the folder's path inside the repository (nothing more
/// for the top folder). So the path ends with the folder's path, and two
/// folders of one repository with different paths go to different places.
pub proof fn lemma_folder_command_path(f: Folder, g: Folder)
    ensures
        ({
            let head = mount_root() + f.user@ + "/"@ + f.repo@ + "/"@;
            let rest = match f.path { Some(p) => p@, None => Seq::<char>::empty() };
            &&& command_spec(Message::OpenInEditor(Link::Folder(f))) matches Some((_, args))
                && args.len() == 1 && args[0].len() == head.len() + rest.len()
                && args[0].take(head.len() as int) == head && args[0].skip(head.len() as int) == rest
            &&& command_spec(Message::RevealInFinder(Link::Folder(f))) == Some(("open"@, seq![head + rest]))
        }),
        ({
            let fa = command_spec(Message::OpenInEditor(Link::Folder(f))).unwrap();
            let ga = command_spec(Message::OpenInEditor(Link::Folder(g))).unwrap();
            (g.user@ == f.user@ && g.repo@ == f.repo@ && f.path is Some && g.path is Some
                && f.path->0@ != g.path->0@) ==> fa.1[0] != ga.1[0]
        }),
{
    let head = mount_root() + f.user@ + "/"@ + f.repo@ + "/"@;
    let rest = match f.path { Some(p) => p@, None => Seq::<char>::empty() };
    let a = mount_root() + editor_path_spec(Link::Folder(f));
    assert(a =~= head + rest);
    assert(a.take(head.len() as int) =~= head);
    assert(a.skip(head.len() as int) =~= rest);
    let b = mount_root() + editor_path_spec(Link::Folder(g));
    if g.user@ == f.user@ && g.repo@ == f.repo@ && f.path is Some && g.path is Some && f.path->0@ != g.path->0@ {
        let grest = g.path->0@;
        assert(b =~= head + grest);
        assert(b.skip(head.len() as int) =~= grest);
    }
}

} // verus!
