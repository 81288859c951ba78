//! The user-data slot that a plugin component keeps between calls, and scoped
//! access to it.
use vstd::prelude::*;

verus! {

/// A component's slot for boxed user data.
pub struct BtSelfComponent<T> {
    data: Option<Box<T>>,
}

impl<T> BtSelfComponent<T> {
    /// What the slot holds.
    pub closed spec fn user_data(&self) -> Option<Box<T>> {
        self.data
    }

    /// A component whose slot is empty.
    pub fn new() -> (r: Self)
        ensures
            r.user_data() is None,
    {
        BtSelfComponent { data: None }
    }
}

/// Access to the user-data slot of a component.
pub trait ToSelfComponent<T> {
    /// What the component's slot holds.
    spec fn data_of(&self) -> Option<Box<T>>;

    /// Takes the data out of the slot, leaving it empty.
    fn take_data(&mut self) -> (r: Option<Box<T>>)
        ensures
            r == old(self).data_of(),
            final(self).data_of() is None,
    ;

    /// Puts `data` into the slot, replacing what was there.
    fn set_data(&mut self, data: Box<T>)
        ensures
            final(self).data_of() == Some(data),
    ;
}

impl<T> ToSelfComponent<T> for BtSelfComponent<T> {
    open spec fn data_of(&self) -> Option<Box<T>> {
        self.user_data()
    }

    fn take_data(&mut self) -> (r: Option<Box<T>>) {
        let r = self.data.take();
        r
    }

    fn set_data(&mut self, data: Box<T>) {
        self.data = Some(data);
    }
}

/// Lends the component's boxed data to `scope` and keeps what `scope` hands
/// back in the slot. An empty slot gives `None` and leaves the component as it
/// was; otherwise the result is `Some` of what `scope` returned.
pub fn get_scoped_boxed_data<T, C, F, R>(comp: &mut C, scope: F) -> (r: Option<R>)
    where
        C: ToSelfComponent<T>,
        F: FnOnce(Box<T>) -> (Box<T>, R),
    requires
        old(comp).data_of() is Some ==> scope.requires((old(comp).data_of()->0,)),
    ensures
        old(comp).data_of() is None ==> r is None && final(comp).data_of() is None,
        old(comp).data_of() is Some ==> r is Some && final(comp).data_of() is Some
            && scope.ensures(
            (old(comp).data_of()->0,),
            (final(comp).data_of()->0, r->0),
        ),
{
    match comp.take_data() {
        None => None,
        Some(data) => {
            let (data, res) = scope(data);
            comp.set_data(data);
            Some(res)
        },
    }
}

} // verus!
