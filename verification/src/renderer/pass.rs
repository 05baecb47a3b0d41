use vstd::prelude::*;

verus! {

/// A rendering pass.
#[derive(Debug, Clone, Copy, PartialEq, Eq, Structural)]
pub enum RenderPass {
    DungeonFloor,
    DungeonWallContent,
    EntityOverlay,
}

/// Most passes a pipeline holds.
pub const MAX_PASSES: usize = 3;

/// An ordered list of at most three passes.
#[derive(Debug, Clone, Copy, PartialEq, Eq)]
pub struct RenderPassPipeline {
    passes: [Option<RenderPass>; 3],
    len: usize,
}

impl View for RenderPassPipeline {
    type V = Seq<RenderPass>;

    /// The passes in the order they were pushed.
    closed spec fn view(&self) -> Seq<RenderPass> {
        Seq::new(self.len as nat, |i: int| self.passes@[i].unwrap())
    }
}

impl RenderPassPipeline {
    /// The stored prefix is exactly the pushed passes.
    pub closed spec fn wf(&self) -> bool {
        &&& self.len <= MAX_PASSES
        &&& forall|i: int| 0 <= i < self.len ==> self.passes@[i] is Some
    }

    /// A pipeline with no passes.
    pub fn empty() -> (p: RenderPassPipeline)
        ensures
            p.wf(),
            p@ == Seq::<RenderPass>::empty(),
    {
        let p = RenderPassPipeline { passes: [None, None, None], len: 0 };
        assert(p@ =~= Seq::<RenderPass>::empty());
        p
    }

    /// Append a pass. The pipeline holds at most three passes.
    pub fn push(&mut self, pass: RenderPass)
        requires
            old(self).wf(),
            old(self)@.len() < MAX_PASSES,
        ensures
            final(self).wf(),
            final(self)@ == old(self)@.push(pass),
    {
        let ghost before = self@;
        self.passes[self.len] = Some(pass);
        self.len = self.len + 1;
        assert(self@ =~= before.push(pass));
    }

    /// The passes in order.
    pub fn iter(&self) -> (v: Vec<RenderPass>)
        requires
            self.wf(),
        ensures
            v@ == self@,
    {
        let mut v: Vec<RenderPass> = Vec::new();
        let mut i: usize = 0;
        while i < self.len
            invariant
                self.wf(),
                i <= self.len,
                v@ == self@.subrange(0, i as int),
            decreases self.len - i,
        {
            if let Some(pass) = self.passes[i] {
                v.push(pass);
            }
            i += 1;
            assert(v@ =~= self@.subrange(0, i as int));
        }
        assert(self@.subrange(0, self.len as int) =~= self@);
        v
    }

    /// Whether the pipeline holds `pass`.
    pub fn contains(&self, pass: RenderPass) -> (b: bool)
        requires
            self.wf(),
        ensures
            b == self@.contains(pass),
    {
        let mut i: usize = 0;
        while i < self.len
            invariant
                self.wf(),
                i <= self.len,
                forall|k: int| 0 <= k < i ==> self@[k] != pass,
            decreases self.len - i,
        {
            if self.passes[i] == Some(pass) {
                assert(self@[i as int] == pass);
                return true;
            }
            i += 1;
        }
        false
    }

    /// Whether a dungeon pass (floor or wall content) is present.
    pub fn requires_dungeon_scan(&self) -> (b: bool)
        requires
            self.wf(),
        ensures
            b == (self@.contains(RenderPass::DungeonFloor) || self@.contains(
                RenderPass::DungeonWallContent,
            )),
    {
        self.contains(RenderPass::DungeonFloor) || self.contains(RenderPass::DungeonWallContent)
    }
}

} // verus!
