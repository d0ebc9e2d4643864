use vstd::prelude::*;

verus! {

/// Output settings of a scene.
#[derive(Debug)]
pub struct RenderSettings {
    pub width: u32,
    pub height: u32,
    /// Accepted from the scene description; no shading here recurses.
    pub trace_depth: i32,
    pub output_file: String,
}

impl RenderSettings {
    /// 400 by 300 pixels, trace depth 5, written to `image_out.png`.
    pub fn default() -> (s: RenderSettings)
        ensures
            s.width == 400,
            s.height == 300,
            s.trace_depth == 5,
            s.output_file@ == "image_out.png"@,
    {
        RenderSettings { width: 400, height: 300, trace_depth: 5, output_file: "image_out.png".to_owned() }
    }
}

/// A configuration error found while a scene is built.
#[derive(Debug, Clone, Copy, PartialEq, Eq, Structural)]
pub enum SceneError {
    /// `popTransform` with only the base frame on the stack.
    UnbalancedPop,
    /// A triangle names a vertex that has not been declared.
    VertexOutOfRange { index: usize },
    /// A directive has fewer arguments than it reads.
    MissingArguments { expected: usize, found: usize },
}

/// The stack of cumulative object-to-world transforms that primitives are
/// declared under. It always holds at least the base frame; the top frame
/// applies to the primitives declared next.
#[derive(Debug)]
pub struct TransformStack<T> {
    frames: Vec<T>,
}

impl<T: Copy> View for TransformStack<T> {
    type V = Seq<T>;

    closed spec fn view(&self) -> Seq<T> {
        self.frames@
    }
}

impl<T: Copy> TransformStack<T> {
    /// The stack is never empty.
    pub open spec fn wf(&self) -> bool {
        self@.len() > 0
    }

    /// A stack that holds the base frame alone.
    pub fn new(base: T) -> (s: TransformStack<T>)
        ensures
            s.wf(),
            s@ == seq![base],
    {
        let mut frames: Vec<T> = Vec::new();
        frames.push(base);
        TransformStack { frames }
    }

    /// The frame in force: the top of the stack.
    pub fn top(&self) -> (t: T)
        requires
            self.wf(),
        ensures
            t == self@.last(),
    {
        self.frames[self.frames.len() - 1]
    }

    /// `pushTransform`: saves the frame in force by pushing a copy of it.
    pub fn push(&mut self)
        requires
            old(self).wf(),
        ensures
            final(self).wf(),
            final(self)@ == old(self)@.push(old(self)@.last()),
    {
        let t = self.top();
        self.frames.push(t);
    }

    /// `popTransform`: restores the frame saved by the matching push. With
    /// only the base frame left, the stack stays as it is and
    /// `UnbalancedPop` is returned.
    pub fn pop(&mut self) -> (r: Result<(), SceneError>)
        requires
            old(self).wf(),
        ensures
            final(self).wf(),
            old(self)@.len() > 1 ==> r is Ok && final(self)@ == old(self)@.drop_last(),
            old(self)@.len() == 1 ==> r == Err::<(), SceneError>(SceneError::UnbalancedPop)
                && final(self)@ == old(self)@,
    {
        if self.frames.len() > 1 {
            self.frames.pop();
            Ok(())
        } else {
            Err(SceneError::UnbalancedPop)
        }
    }

    /// Replaces the frame in force, as a translate, scale or rotate directive
    /// does with the product of the old frame and its own matrix.
    pub fn replace_top(&mut self, t: T)
        requires
            old(self).wf(),
        ensures
            final(self).wf(),
            final(self)@ == old(self)@.update(old(self)@.len() - 1, t),
    {
        self.frames.pop();
        self.frames.push(t);
        proof {
            assert(self.frames@ =~= old(self)@.update(old(self)@.len() - 1, t));
        }
    }
}

/// The three corners of a triangle, looked up by their indices in the list of
/// declared vertices. The first index that is out of range is reported.
pub fn triangle_corners<T: Copy>(vertices: &Vec<T>, indices: [usize; 3]) -> (r: Result<
    (T, T, T),
    SceneError,
>)
    ensures
        (forall|k: int| 0 <= k < 3 ==> #[trigger] indices@[k] < vertices@.len()) ==> r == Ok::<
            (T, T, T),
            SceneError,
        >((vertices@[indices@[0] as int], vertices@[indices@[1] as int], vertices@[indices@[2] as int])),
        forall|k: int|
            0 <= k < 3 && indices@[k] >= vertices@.len() && (forall|m: int|
                0 <= m < k ==> #[trigger] indices@[m] < vertices@.len()) ==> r == Err::<
                (T, T, T),
                SceneError,
            >(SceneError::VertexOutOfRange { index: #[trigger] indices@[k] }),
{
    let mut k: usize = 0;
    while k < 3
        invariant
            k <= 3,
            forall|m: int| 0 <= m < k ==> #[trigger] indices@[m] < vertices@.len(),
        decreases 3 - k,
    {
        if indices[k] >= vertices.len() {
            return Err(SceneError::VertexOutOfRange { index: indices[k] });
        }
        k = k + 1;
    }
    Ok((vertices[indices[0]], vertices[indices[1]], vertices[indices[2]]))
}

} // verus!
