//! The controller's address book, keyed by public key.
//!
//! The book is held as a vector and viewed as a map from public key to entry;
//! adding an entry first drops any entry under the same key, so the vector
//! never holds two entries for one peer.

use vstd::prelude::*;

use super::contact::{Contact, ContactModel};

verus! {

/// The map a vector of entries denotes; a later entry overrides an earlier
/// one with the same key.
pub open spec fn book_of(s: Seq<ContactModel>) -> Map<Seq<char>, ContactModel>
    decreases s.len(),
{
    if s.len() == 0 {
        Map::empty()
    } else {
        book_of(s.drop_last()).insert(s.last().public_key, s.last())
    }
}

/// The address book.
pub struct Contacts {
    contacts: Vec<Contact>,
}

impl View for Contacts {
    type V = Map<Seq<char>, ContactModel>;

    closed spec fn view(&self) -> Map<Seq<char>, ContactModel> {
        book_of(self.contacts.deep_view())
    }
}

impl Default for Contacts {
    /// An empty book.
    fn default() -> (r: Self)
        ensures
            r@ == Map::<Seq<char>, ContactModel>::empty(),
    {
        Contacts { contacts: Vec::new() }
    }
}

/// Dropping the entries under one key removes exactly that key from the
/// denoted map.
proof fn lemma_book_of_drop_key(s: Seq<ContactModel>, dropped: Seq<ContactModel>, key: Seq<char>)
    requires
        dropped == s.filter(|c: ContactModel| c.public_key != key),
    ensures
        book_of(dropped) == book_of(s).remove(key),
    decreases s.len(),
{
    reveal(Seq::filter);
    if s.len() == 0 {
        assert(book_of(dropped) =~= book_of(s).remove(key));
    } else {
        let prefix = s.drop_last();
        let pf = prefix.filter(|c: ContactModel| c.public_key != key);
        lemma_book_of_drop_key(prefix, pf, key);
        if s.last().public_key == key {
            assert(dropped == pf);
            assert(book_of(dropped) =~= book_of(s).remove(key));
        } else {
            assert(dropped == pf.push(s.last()));
            assert(dropped.drop_last() =~= pf);
            assert(dropped.last() == s.last());
            assert(book_of(dropped) =~= book_of(s).remove(key));
        }
    }
}

impl Contacts {
    /// Removes every stored entry whose key is `public_key`.
    pub fn remove_contact(&mut self, public_key: &String)
        ensures
            final(self)@ == old(self)@.remove(public_key@),
    {
        let mut kept: Vec<Contact> = Vec::new();
        let mut i: usize = 0;
        let ghost all = self.contacts.deep_view();
        proof {
            reveal(Seq::filter);
            assert(kept.deep_view() =~= all.take(0).filter(
                |c: ContactModel| c.public_key != public_key@,
            ));
        }
        while i < self.contacts.len()
            invariant
                i <= self.contacts.len(),
                all == self.contacts.deep_view(),
                kept.deep_view() == all.take(i as int).filter(
                    |c: ContactModel| c.public_key != public_key@,
                ),
            decreases self.contacts.len() - i,
        {
            let ghost keptv = kept.deep_view();
            proof {
                reveal(Seq::filter);
                assert(all.take(i + 1).drop_last() =~= all.take(i as int));
                assert(all.take(i + 1).last() == all[i as int]);
            }
            if !(self.contacts[i].public_key == *public_key) {
                let entry = Contact {
                    public_key: self.contacts[i].public_key.clone(),
                    name: self.contacts[i].name.clone(),
                    color: self.contacts[i].color,
                };
                let ghost ev = entry@;
                kept.push(entry);
                proof {
                    assert(ev == all[i as int]);
                    assert(kept.deep_view() =~= keptv.push(ev));
                }
            } else {
                proof {
                    assert(all[i as int].public_key == public_key@);
                }
            }
            i = i + 1;
        }
        proof {
            assert(all.take(all.len() as int) =~= all);
            lemma_book_of_drop_key(
                all,
                all.filter(|c: ContactModel| c.public_key != public_key@),
                public_key@,
            );
        }
        self.contacts = kept;
    }

    /// Stores an entry under its own key, replacing any entry already there.
    pub fn add_contact(&mut self, contact: Contact)
        ensures
            final(self)@ == old(self)@.insert(contact@.public_key, contact@),
    {
        let key = contact.public_key.clone();
        self.remove_contact(&key);
        let ghost mid = self.contacts.deep_view();
        let ghost cv = contact@;
        self.contacts.push(contact);
        proof {
            assert(self.contacts.deep_view() =~= mid.push(cv));
            assert(self.contacts.deep_view().drop_last() =~= mid);
            assert(self@ =~= old(self)@.insert(cv.public_key, cv));
        }
    }

    /// The entry stored under the given key, if any.
    pub fn get_contact(&self, public_key: &String) -> (r: Option<&Contact>)
        ensures
            r matches Some(c) ==> self@.contains_key(public_key@) && self@[public_key@] == c@,
            r is None ==> !self@.contains_key(public_key@),
    {
        let ghost all = self.contacts.deep_view();
        let mut i: usize = self.contacts.len();
        proof {
            assert(all.take(all.len() as int) =~= all);
        }
        while i > 0
            invariant
                i <= self.contacts.len(),
                all == self.contacts.deep_view(),
                book_of(all).contains_key(public_key@) == book_of(all.take(i as int)).contains_key(
                    public_key@,
                ),
                book_of(all).contains_key(public_key@) ==> book_of(all)[public_key@] == book_of(
                    all.take(i as int),
                )[public_key@],
            decreases i,
        {
            proof {
                assert(all.take(i as int).drop_last() =~= all.take(i - 1));
                assert(all.take(i as int).last() == all[i - 1]);
            }
            if self.contacts[i - 1].public_key == *public_key {
                proof {
                    assert(all[i - 1].public_key == public_key@);
                    assert(book_of(all.take(i as int)).contains_key(public_key@));
                    assert(book_of(all.take(i as int))[public_key@] == all[i - 1]);
                }
                return Some(&self.contacts[i - 1]);
            }
            proof {
                assert(all[i - 1].public_key != public_key@);
            }
            i = i - 1;
        }
        proof {
            assert(all.take(0) =~= Seq::<ContactModel>::empty());
        }
        None
    }

    /// All entries, in storage order; their keys are distinct.
    pub fn get_contacts(&self) -> (r: &Vec<Contact>)
        ensures
            book_of(r.deep_view()) == self@,
    {
        &self.contacts
    }
}

} // verus!
