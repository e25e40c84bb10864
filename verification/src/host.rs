//! Functions that the host registers for use in expressions.

use vstd::prelude::*;
use send_wrapper::SendWrapper;
use crate::node::Nodes;
use crate::value::Value;

verus! {

#[verifier::external_type_specification]
#[verifier::external_body]
#[verifier::reject_recursive_types(T)]
pub struct ExSendWrapper<T>(SendWrapper<T>);

/// `SendWrapper::new` takes ownership of a value and remembers the thread
/// it was called on. Nothing is claimed of the wrapper it returns.
pub assume_specification<T>[ SendWrapper::<T>::new ](data: T) -> (wrapper: SendWrapper<T>)
;

/// A function that expressions can call by name. The host implements it;
/// the engine hands it the evaluated arguments and the nodes, and takes
/// whatever it returns.
pub trait HostFunction {
    fn call(&self, args: Vec<Value>, nodes: &Nodes) -> Result<Value, ()>;
}

/// The host function inside `wrapper`, on the thread that made the
/// wrapper; `None` on every other thread.
///
/// `SendWrapper::valid` tells whether the calling thread is the one that
/// made the wrapper, and `SendWrapper`'s `deref` hands out the wrapped
/// value, panicking on every other thread. The two are called together
/// here, `deref` only where `valid` said yes, so that no thread reaches the
/// panic. Which of the two results comes back depends on the caller's
/// thread, so nothing is claimed of it.
#[verifier::external_body]
fn callback_of(wrapper: &SendWrapper<Box<dyn HostFunction>>) -> (callback: Option<
    &Box<dyn HostFunction>,
>) {
    if wrapper.valid() {
        Some(&**wrapper)
    } else {
        None
    }
}

/// What a registered function runs.
pub enum FunctionBody {
    /// The built-in `visited`, evaluated by the engine itself.
    Visited,
    /// A function of the host, confined to the thread that registered it.
    Host(SendWrapper<Box<dyn HostFunction>>),
}

/// A registered function: its declared arity and what it runs.
pub struct Function {
    pub num_args: usize,
    pub body: FunctionBody,
}

/// What expressions need to know of a registered function: how many
/// arguments it declares and whether the engine evaluates it itself. The
/// host's callback is no part of it, since nothing is known of what a
/// callback returns.
pub ghost struct Signature {
    pub arity: nat,
    pub builtin: bool,
}

impl View for Function {
    type V = Signature;

    open spec fn view(&self) -> Signature {
        Signature { arity: self.num_args as nat, builtin: self.body is Visited }
    }
}

impl Function {
    /// The built-in `visited`, of one argument.
    pub fn visited() -> (f: Function)
        ensures
            f@ == (Signature { arity: 1, builtin: true }),
    {
        Function { num_args: 1, body: FunctionBody::Visited }
    }

    /// A host function of `num_args` arguments, bound to the calling
    /// thread: it can be called there only, and it must be dropped there.
    /// Dropping it on another thread panics, whether the function is
    /// dropped by itself, replaced in a table or dropped with the engine
    /// that holds it.
    pub fn host(num_args: usize, callback: Box<dyn HostFunction>) -> (f: Function)
        ensures
            f@ == (Signature { arity: num_args as nat, builtin: false }),
    {
        Function { num_args, body: FunctionBody::Host(SendWrapper::new(callback)) }
    }

    /// Runs a host function on `args`. The result is the host's own; it is
    /// an error without a call when the function is the built-in or was
    /// registered on another thread.
    pub fn call_host(&self, args: Vec<Value>, nodes: &Nodes) -> (r: Result<Value, ()>)
        ensures
            self.body is Visited ==> r is Err,
    {
        match &self.body {
            FunctionBody::Visited => Err(()),
            FunctionBody::Host(wrapper) => {
                match callback_of(wrapper) {
                    Some(callback) => callback.call(args, nodes),
                    None => Err(()),
                }
            },
        }
    }
}

} // verus!
