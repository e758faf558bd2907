use vstd::prelude::*;
use crate::model::PathModel;

verus! {

/// Why the tool could not run the orchestration command.
#[derive(Debug)]
pub enum ComposeError {
    /// No base compose file lies in the current directory or above it.
    NotFound,
    /// The command could not be started; the text is the system's reason.
    SpawnFailure(String),
}

impl ComposeError {
    /// What went wrong, in words for the user.
    pub fn message(&self) -> (r: String)
        ensures
            self is NotFound ==> r@
                == "Couldn't find a docker-compose.yml or docker-compose.yaml file in any parent directory!"@,
            self is SpawnFailure ==> r@ == self->SpawnFailure_0@,
    {
        match self {
            ComposeError::NotFound => String::from_str(
                "Couldn't find a docker-compose.yml or docker-compose.yaml file in any parent directory!",
            ),
            ComposeError::SpawnFailure(reason) => reason.clone(),
        }
    }

    /// What the user can do about it, where there is a hint to give.
    pub fn suggestion(&self) -> (r: Option<String>)
        ensures
            self is NotFound ==> r is Some && r->Some_0@
                == "Make sure you're in a project with a docker-compose file."@,
            self is SpawnFailure ==> r is None,
    {
        match self {
            ComposeError::NotFound => Some(
                String::from_str("Make sure you're in a project with a docker-compose file."),
            ),
            ComposeError::SpawnFailure(_) => None,
        }
    }
}

/// The components of `p` written out, each after a `/`.
pub open spec fn components_text(p: PathModel) -> Seq<char>
    decreases p.len(),
{
    if p.len() == 0 {
        Seq::empty()
    } else {
        components_text(p.drop_last()) + seq!['/'] + p.last()
    }
}

/// The text of the absolute path `p`: `/` for the root.
pub open spec fn path_text(p: PathModel) -> Seq<char> {
    if p.len() == 0 {
        seq!['/']
    } else {
        components_text(p)
    }
}

/// The arguments of the orchestration command: a `-f` flag for the base file,
/// one for the override file where there is one, then the tool's own
/// arguments after the program name, in their order.
pub open spec fn command_line(
    base: PathModel,
    override_file: Option<PathModel>,
    args: Seq<Seq<char>>,
) -> Seq<Seq<char>> {
    let files = match override_file {
        Some(o) => seq!["-f"@, path_text(base), "-f"@, path_text(o)],
        None => seq!["-f"@, path_text(base)],
    };
    files + if args.len() == 0 {
        args
    } else {
        args.drop_first()
    }
}

/// Writes out the absolute path with components `p`.
pub fn render_path(p: &Vec<String>) -> (r: String)
    ensures
        r@ == path_text(p.deep_view()),
{
    if p.len() == 0 {
        proof {
            reveal_strlit("/");
        }
        return String::from_str("/");
    }
    let mut text = String::new();
    let mut i: usize = 0;
    while i < p.len()
        invariant
            i <= p.len(),
            text@ == components_text(p.deep_view().subrange(0, i as int)),
        decreases p.len() - i,
    {
        proof {
            reveal_strlit("/");
            let pre = p.deep_view().subrange(0, i as int + 1);
            assert(pre.drop_last() =~= p.deep_view().subrange(0, i as int));
        }
        text.append("/");
        text.append(p[i].as_str());
        i += 1;
    }
    proof {
        assert(p.deep_view().subrange(0, p.len() as int) =~= p.deep_view());
    }
    text
}

/// The arguments to run the orchestration command with, given what the two
/// searches found and the tool's own arguments (program name first). Without
/// a base file there is nothing to run.
pub fn command_args(
    base: Option<Vec<String>>,
    override_file: Option<Vec<String>>,
    args: Vec<String>,
) -> (r: Result<Vec<String>, ComposeError>)
    ensures
        r is Err <==> base is None,
        r is Err ==> r->Err_0 is NotFound,
        r is Ok ==> r->Ok_0.deep_view() == command_line(
            base->Some_0.deep_view(),
            override_file.deep_view(),
            args.deep_view(),
        ),
{
    let base = match base {
        Some(b) => b,
        None => return Err(ComposeError::NotFound),
    };
    let mut out: Vec<String> = Vec::new();
    out.push(String::from_str("-f"));
    out.push(render_path(&base));
    match &override_file {
        Some(o) => {
            out.push(String::from_str("-f"));
            out.push(render_path(o));
        },
        None => {},
    }
    let ghost files = out.deep_view();
    proof {
        assert(files =~= match override_file.deep_view() {
            Some(o) => seq!["-f"@, path_text(base.deep_view()), "-f"@, path_text(o)],
            None => seq!["-f"@, path_text(base.deep_view())],
        });
    }
    if args.len() == 0 {
        proof {
            assert(out.deep_view() =~= files + args.deep_view());
        }
        return Ok(out);
    }
    proof {
        assert(out.deep_view() =~= files + args.deep_view().subrange(1, 1));
    }
    let mut i: usize = 1;
    while i < args.len()
        invariant
            1 <= i <= args.len(),
            out.deep_view() == files + args.deep_view().subrange(1, i as int),
        decreases args.len() - i,
    {
        let ghost before = out.deep_view();
        out.push(args[i].clone());
        proof {
            assert(out.deep_view() =~= before.push(args.deep_view()[i as int]));
            assert(args.deep_view().subrange(1, i as int + 1) =~= args.deep_view().subrange(
                1,
                i as int,
            ).push(args.deep_view()[i as int]));
            assert(out.deep_view() =~= files + args.deep_view().subrange(1, i as int + 1));
        }
        i += 1;
    }
    proof {
        assert(args.deep_view().subrange(1, args.len() as int) =~= args.deep_view().drop_first());
    }
    Ok(out)
}

/// The exit status of the tool: the command's own, or `-1` where it has none
/// (it was ended by a signal).
pub fn exit_code(status: Option<i32>) -> (r: i32)
    ensures
        r == match status {
            Some(c) => c,
            None => -1i32,
        },
{
    match status {
        Some(c) => c,
        None => -1,
    }
}

} // verus!
