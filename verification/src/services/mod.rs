//! The services around the core: storage, models, the request router and
//! the observer.

pub mod api;
pub mod model;
pub mod observer;
pub mod storage;

pub use api::ApiService;
pub use model::ModelService;
pub use observer::ObserverService;
pub use storage::StorageService;
