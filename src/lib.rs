use vstd::prelude::*;

pub mod ast;
pub mod binary;
pub mod env;
pub mod error;
pub mod eval;
pub mod laws;
pub mod lexer;
pub mod libs;
pub mod parser;
pub mod text;
pub mod value;

use crate::ast::Stmt;
use crate::env::{chain_define, Environment, Frame};
use crate::eval::{outcome_view, program_spec, EvalError, Evaluator};
use crate::libs::get_library_registry;
use crate::text::same_text;
use crate::value::{Native, Val, Value};

verus! {

/// An interpreter session: one root environment that successive programs share.
pub struct SKInterpreter {
    env: Environment,
}

impl SKInterpreter {
    pub closed spec fn wf(&self) -> bool {
        self.env.wf()
    }

    /// The frames of the session's environment.
    pub closed spec fn frames(&self) -> Seq<Frame> {
        self.env.frames()
    }

    /// A session always has at least its root frame.
    pub proof fn lemma_frames_nonempty(&self)
        requires
            self.wf(),
        ensures
            self.frames().len() >= 1,
    {
        self.env.lemma_frames_len();
    }

    /// A session with an empty root environment.
    pub fn new() -> (r: Self)
        ensures
            r.wf(),
            r.frames() == seq![Seq::<(Seq<char>, Val)>::empty()],
    {
        SKInterpreter { env: Environment::new() }
    }

    /// Loads the library of the given name; false when there is none.
    pub fn load_library(&mut self, name: &str) -> (r: bool)
        requires
            old(self).wf(),
        ensures
            final(self).wf(),
            r == (name@ == "math"@),
            r ==> final(self).frames()
                == chain_define(old(self).frames(), "sqrt"@, Val::NativeFn(Native::Sqrt)),
            !r ==> final(self).frames() == old(self).frames(),
    {
        let registry = get_library_registry();
        let mut i: usize = 0;
        while i < registry.len()
            invariant
                i <= registry.len(),
                registry@.len() == 1,
                registry@[0].0@ == "math"@,
                registry@[0].1 == crate::libs::Library::Math,
                self.wf(),
                self.frames() == old(self).frames(),
                forall|j: int| 0 <= j < i ==> registry@[j].0@ != name@,
            decreases registry.len() - i,
        {
            if same_text(registry[i].0.as_str(), name) {
                registry[i].1.register(&mut self.env);
                return true;
            }
            i = i + 1;
        }
        false
    }

    /// Runs a program in the session's environment; yields the value of its
    /// last statement, or the error that stopped it, with the lines it printed.
    pub fn execute(&mut self, program: &Vec<Stmt>) -> (r: (Result<Value, EvalError>, Vec<String>))
        requires
            old(self).wf(),
        ensures
            final(self).wf(),
            outcome_view(r.0) == program_spec(old(self).frames(), program@).0,
            r.1@.map_values(|s: String| s@) == program_spec(old(self).frames(), program@).1,
            final(self).frames() == program_spec(old(self).frames(), program@).2,
    {
        let mut env = Environment::new();
        core::mem::swap(&mut env, &mut self.env);
        let mut evaluator = Evaluator::new(env);
        let result = evaluator.evaluate(program);
        let (env, output) = evaluator.into_parts();
        self.env = env;
        proof {
            assert(Seq::<Seq<char>>::empty() + program_spec(old(self).frames(), program@).1
                =~= program_spec(old(self).frames(), program@).1);
        }
        (result, output)
    }
}

} // verus!
