pub mod agent_locale;
pub mod autonomy;
pub mod autonomy_task;
pub mod dev_task_executor;
pub mod employee;
pub mod employee_chat;
pub mod employee_conversation_stream;
pub mod employee_intent_router;
pub mod employee_requirement_agent;
pub mod employee_todo;
pub mod git;
pub mod intent;
pub mod logging;
pub mod paths;
pub mod requirement;
pub mod requirement_agents;
pub mod requirement_development;
pub mod requirement_release;
pub mod requirement_review;
pub mod requirement_testing;
pub mod settings;
pub mod shop_status;
pub mod text;
