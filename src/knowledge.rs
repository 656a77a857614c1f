//! Learned knowledge: documents, embeddings and the vector store.
pub mod documents;
pub mod embeddings;
pub mod vectorstore;
