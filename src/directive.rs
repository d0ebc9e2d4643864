use vstd::prelude::*;
use vstd::string::StrSliceExecFns;

use crate::scene::SceneError;

verus! {

/// The words that remain of `s` once `cur` (the word being read) is ended:
/// words are maximal runs of characters other than a space.
pub open spec fn words_from(s: Seq<char>, cur: Seq<char>) -> Seq<Seq<char>>
    decreases s.len(),
{
    if s.len() == 0 {
        end_word(cur)
    } else if s[0] == ' ' {
        end_word(cur) + words_from(s.drop_first(), Seq::empty())
    } else {
        words_from(s.drop_first(), cur.push(s[0]))
    }
}

/// A finished word, unless it is empty.
pub open spec fn end_word(cur: Seq<char>) -> Seq<Seq<char>> {
    if cur.len() == 0 {
        Seq::empty()
    } else {
        seq![cur]
    }
}

/// The words of a line: it is split at every space and empty pieces are dropped.
pub open spec fn words(s: Seq<char>) -> Seq<Seq<char>> {
    words_from(s, Seq::empty())
}

/// The texts of a vector of strings.
pub open spec fn texts(v: Seq<String>) -> Seq<Seq<char>> {
    v.map_values(|w: String| w@)
}

/// Splits a line into its words (see `words`).
pub fn split_words(line: &str) -> (ws: Vec<String>)
    ensures
        texts(ws@) == words(line@),
{
    let n = line.unicode_len();
    let mut ws: Vec<String> = Vec::new();
    let mut start: usize = 0;
    let mut i: usize = 0;
    proof {
        assert(line@.skip(0) =~= line@);
        assert(line@.subrange(0, 0) =~= Seq::<char>::empty());
        assert(texts(ws@) + words(line@) =~= words(line@));
    }
    while i < n
        invariant
            n == line@.len(),
            start <= i <= n,
            texts(ws@) + words_from(line@.skip(i as int), line@.subrange(start as int, i as int))
                == words(line@),
        decreases n - i,
    {
        let c = line.get_char(i);
        let ghost rest = line@.skip(i as int);
        let ghost cur = line@.subrange(start as int, i as int);
        let ghost before = texts(ws@);
        proof {
            assert(rest[0] == c);
            assert(rest.drop_first() =~= line@.skip(i + 1));
        }
        if c == ' ' {
            if start < i {
                let w = line.substring_char(start, i).to_owned();
                proof {
                    assert(texts(ws@.push(w)) =~= texts(ws@) + end_word(cur));
                }
                ws.push(w);
            } else {
                proof {
                    assert(texts(ws@) + end_word(cur) =~= texts(ws@));
                }
            }
            proof {
                assert(line@.subrange(i + 1, i + 1) =~= Seq::<char>::empty());
                let tail = words_from(line@.skip(i + 1), Seq::empty());
                assert(words_from(rest, cur) == end_word(cur) + tail);
                assert(texts(ws@) == before + end_word(cur));
                assert(before + (end_word(cur) + tail) =~= (before + end_word(cur)) + tail);
            }
            start = i + 1;
        } else {
            proof {
                assert(cur.push(c) =~= line@.subrange(start as int, i + 1));
            }
        }
        i = i + 1;
    }
    let ghost cur = line@.subrange(start as int, i as int);
    proof {
        assert(line@.skip(i as int).len() == 0);
    }
    if start < n {
        let w = line.substring_char(start, n).to_owned();
        proof {
            assert(texts(ws@.push(w)) =~= texts(ws@) + end_word(cur));
        }
        ws.push(w);
    } else {
        proof {
            assert(texts(ws@) + end_word(cur) =~= texts(ws@));
        }
    }
    ws
}

/// The directives of a scene description.
#[derive(Debug, Clone, Copy, PartialEq, Eq, Structural)]
pub enum Command {
    /// `size w h`
    Size,
    /// `output path`
    Output,
    /// `maxdepth n`
    MaxDepth,
    /// `camera ex ey ez lx ly lz ux uy uz fovy`
    Camera,
    /// `sphere x y z r`
    Sphere,
    /// `maxverts n`
    MaxVerts,
    /// `vertex x y z`
    Vertex,
    /// `tri i0 i1 i2`
    Tri,
    /// `translate x y z`
    Translate,
    /// `scale x y z`
    Scale,
    /// `rotate ax ay az degrees`
    Rotate,
    /// `pushTransform`
    PushTransform,
    /// `popTransform`
    PopTransform,
}

/// The directive that a word names, if any.
pub open spec fn command_named(w: Seq<char>) -> Option<Command> {
    if w == "size"@ {
        Some(Command::Size)
    } else if w == "output"@ {
        Some(Command::Output)
    } else if w == "maxdepth"@ {
        Some(Command::MaxDepth)
    } else if w == "camera"@ {
        Some(Command::Camera)
    } else if w == "sphere"@ {
        Some(Command::Sphere)
    } else if w == "maxverts"@ {
        Some(Command::MaxVerts)
    } else if w == "vertex"@ {
        Some(Command::Vertex)
    } else if w == "tri"@ {
        Some(Command::Tri)
    } else if w == "translate"@ {
        Some(Command::Translate)
    } else if w == "scale"@ {
        Some(Command::Scale)
    } else if w == "rotate"@ {
        Some(Command::Rotate)
    } else if w == "pushTransform"@ {
        Some(Command::PushTransform)
    } else if w == "popTransform"@ {
        Some(Command::PopTransform)
    } else {
        None
    }
}

/// How many arguments a directive reads.
pub open spec fn arity_of(c: Command) -> nat {
    match c {
        Command::Size => 2,
        Command::Output => 1,
        Command::MaxDepth => 1,
        Command::Camera => 10,
        Command::Sphere => 4,
        Command::MaxVerts => 1,
        Command::Vertex => 3,
        Command::Tri => 3,
        Command::Translate => 3,
        Command::Scale => 3,
        Command::Rotate => 4,
        Command::PushTransform => 0,
        Command::PopTransform => 0,
    }
}

/// Whether `w` reads `name`.
fn is_word(w: &String, name: &str) -> (b: bool)
    ensures
        b == (w@ == name@),
{
    *w == name.to_owned()
}

impl Command {
    /// The directive that a word names, if any.
    pub fn from_word(w: &String) -> (c: Option<Command>)
        ensures
            c == command_named(w@),
    {
        if is_word(w, "size") {
            Some(Command::Size)
        } else if is_word(w, "output") {
            Some(Command::Output)
        } else if is_word(w, "maxdepth") {
            Some(Command::MaxDepth)
        } else if is_word(w, "camera") {
            Some(Command::Camera)
        } else if is_word(w, "sphere") {
            Some(Command::Sphere)
        } else if is_word(w, "maxverts") {
            Some(Command::MaxVerts)
        } else if is_word(w, "vertex") {
            Some(Command::Vertex)
        } else if is_word(w, "tri") {
            Some(Command::Tri)
        } else if is_word(w, "translate") {
            Some(Command::Translate)
        } else if is_word(w, "scale") {
            Some(Command::Scale)
        } else if is_word(w, "rotate") {
            Some(Command::Rotate)
        } else if is_word(w, "pushTransform") {
            Some(Command::PushTransform)
        } else if is_word(w, "popTransform") {
            Some(Command::PopTransform)
        } else {
            None
        }
    }

    /// How many arguments the directive reads.
    pub fn arity(&self) -> (n: usize)
        ensures
            n == arity_of(*self),
    {
        match self {
            Command::Size => 2,
            Command::Output => 1,
            Command::MaxDepth => 1,
            Command::Camera => 10,
            Command::Sphere => 4,
            Command::MaxVerts => 1,
            Command::Vertex => 3,
            Command::Tri => 3,
            Command::Translate => 3,
            Command::Scale => 3,
            Command::Rotate => 4,
            Command::PushTransform => 0,
            Command::PopTransform => 0,
        }
    }
}

/// One line of a scene description.
#[derive(Debug)]
pub enum SceneLine {
    /// Nothing to do: an empty line, a comment, or spaces alone.
    Blank,
    /// A known directive and its argument words; words past those it reads
    /// are kept and ignored.
    Directive { command: Command, args: Vec<String> },
    /// A word that names no directive; the line is passed over.
    Unknown { name: String },
}

/// Lines with nothing to do: empty, starting with `#`, or without words.
pub open spec fn is_blank(s: Seq<char>) -> bool {
    s.len() == 0 || s[0] == '#' || words(s).len() == 0
}

/// What a line of a scene description reads as.
pub open spec fn reads_as(s: Seq<char>, r: Result<SceneLine, SceneError>) -> bool {
    if is_blank(s) {
        r matches Ok(SceneLine::Blank)
    } else {
        let w = words(s);
        match command_named(w[0]) {
            None => r matches Ok(SceneLine::Unknown { name }) && name@ == w[0],
            Some(c) => if w.len() - 1 >= arity_of(c) {
                r matches Ok(SceneLine::Directive { command, args }) && command == c && texts(
                    args@,
                ) == w.drop_first()
            } else {
                r == Err::<SceneLine, SceneError>(
                    SceneError::MissingArguments {
                        expected: arity_of(c) as usize,
                        found: (w.len() - 1) as usize,
                    },
                )
            },
        }
    }
}

/// Reads one line of a scene description (see `reads_as`). A known directive
/// with fewer arguments than it reads is refused with `MissingArguments`.
pub fn parse_line(line: &str) -> (r: Result<SceneLine, SceneError>)
    ensures
        reads_as(line@, r),
{
    if line.is_empty() {
        return Ok(SceneLine::Blank);
    }
    if line.get_char(0) == '#' {
        return Ok(SceneLine::Blank);
    }
    let mut ws = split_words(line);
    if ws.len() == 0 {
        return Ok(SceneLine::Blank);
    }
    let ghost all = ws@;
    let name = ws.remove(0);
    proof {
        assert(texts(all)[0] == name@);
        assert(texts(ws@) =~= texts(all).drop_first());
    }
    match Command::from_word(&name) {
        None => Ok(SceneLine::Unknown { name }),
        Some(command) => {
            let n = command.arity();
            if ws.len() < n {
                Err(SceneError::MissingArguments { expected: n, found: ws.len() })
            } else {
                Ok(SceneLine::Directive { command, args: ws })
            }
        },
    }
}

} // verus!
