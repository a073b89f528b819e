/// Grid state, rows, and the cursor state machine.
pub mod state;

/// The two-tier context store.
pub mod frameworkdata;

/// The context handle handed to item callbacks.
pub mod frameworkclean;

/// The items a grid can hold.
pub mod item;

/// Saved states of the framework.
pub mod frameworkhistory;

/// The orchestrator that owns grid, cursor, store, and history.
pub mod framework;

pub use state::CursorState;
pub use state::FrameworkDirection;
pub use state::FrameworkError;
pub use state::ItemInfo;
pub use frameworkdata::DataMap;
pub use frameworkdata::DataValue;
pub use frameworkdata::FrameworkData;
pub use frameworkclean::FrameworkClean;
pub use item::FrameworkItem;
pub use item::ItemError;
pub use item::KeyInput;
pub use frameworkhistory::FrameworkHistory;
pub use framework::Framework;
pub use state::Row;
pub use state::RowItem;
pub use state::State;
pub use framework::RenderEntry;
