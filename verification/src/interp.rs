//! Interpreter state for one spec-expansion session: the registry, the
//! collected diagnostics, and the recursion-depth guard.
//!
//! Expansion is depth-first and synchronous; the scripting bridge and the
//! expansion driver get the whole state by exclusive borrow, so no shared
//! ownership or locking is needed.  The session text buffer is owned by
//! the driver and only ever grows, which keeps every registered span
//! valid.

use vstd::prelude::*;
use crate::error::MacroError;
use crate::registry::{MacroType, Registry};

verus! {

/// Severity of one diagnostic line.
#[derive(Clone, Copy, PartialEq, Eq, Structural)]
pub enum Severity {
    Info,
    Warning,
    Error,
}

/// One diagnostic emitted by a builtin; the driver owns the sink it
/// finally goes to.
pub struct Diagnostic {
    pub level: Severity,
    pub text: Vec<char>,
}

/// The interpreter state threaded through every builtin.
pub struct Interp {
    /// The macro registry, seeded with the builtin table.
    pub macros: Registry,
    /// Diagnostics collected so far, oldest first.
    pub diags: Vec<Diagnostic>,
    /// Current expansion depth.
    pub depth: usize,
    /// Expansion depth past which expansion fails instead of recursing,
    /// the guard against unbounded self-referential macros.
    pub depth_limit: usize,
}

impl Interp {
    pub open spec fn inv(self) -> bool {
        self.macros.inv()
    }

    /// A fresh session: an empty user registry on top of nothing but the
    /// given depth limit.  Seeding with the builtin table is
    /// [`crate::builtins::seed`]'s business.
    pub fn new(depth_limit: usize) -> (r: Interp)
        ensures
            r.inv(),
            r.depth == 0,
            r.depth_limit == depth_limit,
            r.diags@.len() == 0,
            forall|n: Seq<char>| r.macros.lookup_spec(n) is None,
            forall|b: nat| r.macros.spans_ok(b),
    {
        Interp { macros: Registry::new(), diags: Vec::new(), depth: 0, depth_limit }
    }

    /// Enters one level of recursive expansion, or fails with the
    /// dedicated error once the configured limit is reached.
    pub fn enter_expansion(&mut self) -> (r: Result<(), MacroError>)
        ensures
            final(self).macros == old(self).macros,
            final(self).diags == old(self).diags,
            final(self).depth_limit == old(self).depth_limit,
            r is Ok <==> old(self).depth < old(self).depth_limit,
            r is Ok ==> final(self).depth == old(self).depth + 1,
            r matches Err(e) ==> e is RecursionLimitExceeded && final(self).depth == old(
                self,
            ).depth,
    {
        if self.depth < self.depth_limit {
            self.depth = self.depth + 1;
            Ok(())
        } else {
            Err(MacroError::RecursionLimitExceeded)
        }
    }

    /// Leaves one level of recursive expansion.
    pub fn leave_expansion(&mut self)
        requires
            old(self).depth >= 1,
        ensures
            final(self).macros == old(self).macros,
            final(self).diags == old(self).diags,
            final(self).depth_limit == old(self).depth_limit,
            final(self).depth == old(self).depth - 1,
    {
        self.depth = self.depth - 1;
    }

    /// Records one diagnostic.
    pub fn diag(&mut self, level: Severity, text: Vec<char>)
        ensures
            final(self).macros == old(self).macros,
            final(self).depth == old(self).depth,
            final(self).depth_limit == old(self).depth_limit,
            final(self).diags@ == old(self).diags@.push(Diagnostic { level, text }),
    {
        self.diags.push(Diagnostic { level, text });
    }

    /// Defines `name` from literal text: the text is appended to the
    /// session buffer — the buffer only ever grows, so earlier spans stay
    /// valid — and registered as a span over what was appended.
    pub fn define_from_text(
        &mut self,
        buf: &mut Vec<char>,
        name: Vec<char>,
        body: &Vec<char>,
        param: bool,
        file: String,
    )
        requires
            old(self).inv(),
            old(buf)@.len() + body@.len() <= usize::MAX,
        ensures
            final(self).inv(),
            final(buf)@ == old(buf)@ + body@,
            final(self).diags == old(self).diags,
            final(self).depth == old(self).depth,
            final(self).depth_limit == old(self).depth_limit,
            final(self).macros.lookup_spec(name@) matches Some(stack) && stack.last()
                == (MacroType::Runtime {
                file,
                offset: old(buf)@.len() as usize,
                len: body@.len() as usize,
                param,
            }),
            forall|n: Seq<char>|
                n != name@ ==> final(self).macros.lookup_spec(n)
                    == old(self).macros.lookup_spec(n),
            forall|b: nat|
                old(self).macros.spans_ok(b) && final(buf)@.len() <= b
                    ==> final(self).macros.spans_ok(b),
    {
        let offset = buf.len();
        let len = body.len();
        let mut k: usize = 0;
        while k < body.len()
            invariant
                k <= body@.len(),
                buf@ == old(buf)@ + body@.subrange(0, k as int),
                old(buf)@.len() + body@.len() <= usize::MAX,
            decreases body@.len() - k,
        {
            buf.push(body[k]);
            assert(buf@ =~= old(buf)@ + body@.subrange(0, k as int + 1));
            k += 1;
        }
        assert(buf@ =~= old(buf)@ + body@);
        let def = MacroType::Runtime { file, offset, len, param };
        let ghost gdef = def;
        let ghost gname = name@;
        let ghost reg0 = self.macros;
        self.macros.define(name, def);
        proof {
            match reg0.lookup_spec(gname) {
                Some(s) => {
                    assert(self.macros.lookup_spec(gname) == Some(s.push(gdef)));
                    assert(s.push(gdef).last() == gdef);
                },
                None => {
                    assert(self.macros.lookup_spec(gname) == Some(seq![gdef]));
                    assert(seq![gdef].last() == gdef);
                },
            }
            assert forall|b: nat| reg0.spans_ok(b) && buf@.len() <= b implies self.macros.spans_ok(
                b,
            ) by {
                assert(gdef.span_ok(b));
            }
        }
    }
}

} // verus!
