use vstd::prelude::*;

verus! {

/// The request that removes a host from the network's list of peers.
#[derive(Clone, Debug, PartialEq)]
pub struct RemoveHostOptions {
    timestamp: String,
    signature: String,
    public_key: String,
}

/// The value of a `RemoveHostOptions`: timestamp, signature and public key.
pub ghost struct RemoveHostOptionsView {
    pub timestamp: Seq<char>,
    pub signature: Seq<char>,
    pub public_key: Seq<char>,
}

impl View for RemoveHostOptions {
    type V = RemoveHostOptionsView;

    closed spec fn view(&self) -> RemoveHostOptionsView {
        RemoveHostOptionsView {
            timestamp: self.timestamp@,
            signature: self.signature@,
            public_key: self.public_key@,
        }
    }
}

impl RemoveHostOptions {
    /// A request made of its three parts.
    pub fn new(timestamp: String, signature: String, public_key: String) -> (r: Self)
        ensures
            r@ == (RemoveHostOptionsView {
                timestamp: timestamp@,
                signature: signature@,
                public_key: public_key@,
            }),
    {
        RemoveHostOptions { timestamp, signature, public_key }
    }

    /// The timestamp, the signature and the public key.
    pub fn parts(&self) -> (r: (&String, &String, &String))
        ensures
            r.0@ == self@.timestamp,
            r.1@ == self@.signature,
            r.2@ == self@.public_key,
    {
        (&self.timestamp, &self.signature, &self.public_key)
    }
}

} // verus!
