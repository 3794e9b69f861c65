pub mod events;
pub mod legacy;
pub mod plan;
pub mod planner;
pub mod prompts;
pub mod scheduler;
pub mod store;
pub mod task;
pub mod task_graph;
pub mod worker;
pub mod worker_pool;
