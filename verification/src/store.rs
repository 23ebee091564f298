//! The document store: one entry per open file, keyed by URI.
//!
//! The collection is a concurrent map with per-key locking, so requests
//! arriving while another is served read either the fully-old or the
//! fully-new document, never a mix; distinct URIs are fully independent.
//! The map itself is the outside crate's; its operations stand behind
//! trusted wrappers whose contracts speak over the named entry map
//! [`store_entries`]. Everything around them — when an operation succeeds,
//! which error it reports, and what the entry map holds afterwards — is
//! verified.
//!
//! Changing a document takes two steps around the external re-parse: the
//! store first answers the edit descriptor for the stored tree
//! ([`DocumentStore::change_edit`]), the surrounding process runs the
//! re-parse, and the store then takes the outcome in
//! ([`DocumentStore::apply_change`]), replacing tree and source together or
//! reporting the failure with nothing changed.

use vstd::prelude::*;
use crate::doc::{compute_edit_descriptor, edit_descriptor_for, DocType, Document, EditDescriptor};
use crate::text::chars_of;
use crate::tree::SyntaxTree;

verus! {

#[verifier::external_type_specification]
#[verifier::external_body]
#[verifier::reject_recursive_types(K)]
#[verifier::reject_recursive_types(V)]
#[verifier::reject_recursive_types(S)]
pub struct ExDashMap<K, V, S>(dashmap::DashMap<K, V, S>);

/// The concurrent map type the store is built on.
pub type UriMap = dashmap::DashMap<String, Document>;

/// The entries a concurrent document map holds, as a map from URI text to
/// document.
pub uninterp spec fn store_entries(m: UriMap) -> Map<Seq<char>, Document>;

/// The entry map of a store without documents.
pub open spec fn empty_store() -> Map<Seq<char>, Document> {
    Map::empty()
}

/// Why a document operation failed.
#[derive(Clone, Copy, Debug, PartialEq, Eq, Structural)]
pub enum DocError {
    /// The URI has no open document.
    DocumentNotFound,
    /// The external parser returned no tree.
    ParseFailure,
}

/// The open documents, keyed by URI.
pub struct DocumentStore {
    map: UriMap,
}

impl DocumentStore {
    /// The entry map this store stands for.
    pub closed spec fn view(&self) -> Map<Seq<char>, Document> {
        store_entries(self.map)
    }

    /// Every stored document carries a well-formed tree.
    pub open spec fn inv(&self) -> bool {
        forall|k: Seq<char>| self@.contains_key(k) ==> (#[trigger] self@[k]).tree.wf()
    }

    /// Relies on dashmap::DashMap::new: the fresh map has no entries.
    #[verifier::external_body]
    fn map_new() -> (r: UriMap)
        ensures
            store_entries(r) == empty_store(),
    {
        dashmap::DashMap::new()
    }

    /// Relies on dashmap::DashMap::insert: the entry for the key becomes the
    /// given value, every other entry stays.
    #[verifier::external_body]
    fn map_insert(&mut self, uri: String, doc: Document)
        ensures
            store_entries(final (self).map) == store_entries(old(self).map).insert(uri@, doc),
    {
        self.map.insert(uri, doc);
    }

    /// Relies on dashmap::DashMap::remove: the entry for the key is gone,
    /// every other entry stays.
    #[verifier::external_body]
    fn map_remove(&mut self, uri: &String)
        ensures
            store_entries(final (self).map) == store_entries(old(self).map).remove(uri@),
    {
        self.map.remove(uri);
    }

    /// Relies on dashmap::DashMap::get, which answers the entry stored for
    /// the key, and on the derived clone of `Document`, which copies every
    /// field as plain data.
    #[verifier::external_body]
    fn map_get(&self, uri: &String) -> (r: Option<Document>)
        ensures
            store_entries(self.map).contains_key(uri@) ==> r == Some(
                store_entries(self.map)[uri@],
            ),
            !store_entries(self.map).contains_key(uri@) ==> r is None,
    {
        match self.map.get(uri) {
            Some(entry) => Some(entry.value().clone()),
            None => None,
        }
    }

    /// An empty store.
    pub fn new() -> (r: DocumentStore)
        ensures
            r@ == empty_store(),
            r.inv(),
    {
        DocumentStore { map: Self::map_new() }
    }

    /// Opens a document: the parse outcome for its text either becomes its
    /// entry — replacing any entry the URI had — or, when the parser
    /// returned nothing, is reported with the store unchanged.
    pub fn open(
        &mut self,
        uri: String,
        source: Vec<char>,
        doc_type: DocType,
        parsed: Option<SyntaxTree>,
    ) -> (r: Result<(), DocError>)
        requires
            old(self).inv(),
            parsed matches Some(t) ==> t.wf(),
        ensures
            final (self).inv(),
            parsed is None ==> r == Err::<(), DocError>(DocError::ParseFailure) && final (self)@
                == old(self)@,
            parsed matches Some(t) ==> r == Ok::<(), DocError>(()) && final (self)@.contains_key(
                uri@,
            ) && final (self)@[uri@].tree == t && final (self)@[uri@].source == source && final (
            self)@[uri@].doc_type == doc_type && final (self)@[uri@].url@ == uri@ && final (self)@
                == old(self)@.insert(uri@, final (self)@[uri@]),
    {
        match parsed {
            None => Err(DocError::ParseFailure),
            Some(tree) => {
                let url = chars_of(uri.as_str());
                let doc = Document { url, tree, source, doc_type };
                self.map_insert(uri, doc);
                Ok(())
            },
        }
    }

    /// The edit descriptor for replacing the document at `uri` whole with
    /// `new_text`, computed against the stored tree; a URI without an open
    /// document is reported as not found.
    pub fn change_edit(&self, uri: &String, new_text: &Vec<char>) -> (r: Result<
        EditDescriptor,
        DocError,
    >)
        requires
            self.inv(),
        ensures
            !self@.contains_key(uri@) ==> r == Err::<EditDescriptor, DocError>(
                DocError::DocumentNotFound,
            ),
            self@.contains_key(uri@) ==> r == Ok::<EditDescriptor, DocError>(
                edit_descriptor_for(self@[uri@].tree.nodes[0], new_text@),
            ),
    {
        match self.map_get(uri) {
            None => Err(DocError::DocumentNotFound),
            Some(doc) => {
                proof {
                    assert(self@[uri@].tree.wf());
                }
                Ok(compute_edit_descriptor(&doc.tree.nodes[0], new_text))
            },
        }
    }

    /// Takes the outcome of a re-parse in: tree and source are replaced
    /// together on success; a URI without an open document or a re-parse
    /// that returned nothing is reported with the store unchanged.
    pub fn apply_change(
        &mut self,
        uri: &String,
        new_source: Vec<char>,
        new_tree: Option<SyntaxTree>,
    ) -> (r: Result<(), DocError>)
        requires
            old(self).inv(),
            new_tree matches Some(t) ==> t.wf(),
        ensures
            final (self).inv(),
            !old(self)@.contains_key(uri@) ==> r == Err::<(), DocError>(
                DocError::DocumentNotFound,
            ) && final (self)@ == old(self)@,
            old(self)@.contains_key(uri@) && new_tree is None ==> r == Err::<(), DocError>(
                DocError::ParseFailure,
            ) && final (self)@ == old(self)@,
            old(self)@.contains_key(uri@) && (new_tree matches Some(t)) ==> r == Ok::<
                (),
                DocError,
            >(()) && final (self)@.contains_key(uri@) && final (self)@[uri@].tree
                == new_tree->Some_0 && final (self)@[uri@].source == new_source && final (self)@[
                uri@
            ].url == old(self)@[uri@].url && final (self)@[uri@].doc_type == old(self)@[
                uri@
            ].doc_type && final (self)@ == old(self)@.insert(uri@, final (self)@[uri@]),
    {
        match self.map_get(uri) {
            None => Err(DocError::DocumentNotFound),
            Some(doc) => {
                match new_tree {
                    None => Err(DocError::ParseFailure),
                    Some(tree) => {
                        let nd = Document {
                            url: doc.url,
                            tree,
                            source: new_source,
                            doc_type: doc.doc_type,
                        };
                        self.map_insert(uri.clone(), nd);
                        Ok(())
                    },
                }
            },
        }
    }

    /// Closes a document; a URI without one leaves the store as it was.
    pub fn close(&mut self, uri: &String)
        requires
            old(self).inv(),
        ensures
            final (self).inv(),
            final (self)@ == old(self)@.remove(uri@),
    {
        self.map_remove(uri);
    }

    /// The document at `uri`, if one is open.
    pub fn get(&self, uri: &String) -> (r: Option<Document>)
        ensures
            self@.contains_key(uri@) ==> r == Some(self@[uri@]),
            !self@.contains_key(uri@) ==> r is None,
    {
        self.map_get(uri)
    }
}

/// A document opened and then closed is gone: a change request for its URI
/// can only be answered with `DocumentNotFound`, whatever the document held
/// and whatever else the store holds.
pub proof fn lemma_closed_uri_not_found(m: Map<Seq<char>, Document>, uri: Seq<char>, doc: Document)
    ensures
        !m.insert(uri, doc).remove(uri).contains_key(uri),
{
}

} // verus!
