pub mod resources;
pub mod time;

pub use resources::{
    create, delete, get, get_one, NewResource, Pageable, PaginatedList, Resource, ResourceStore,
    StoreError,
};
pub use time::get_timestamp;
