pub mod claim_laws;
pub mod config_transaction;
pub mod core_laws;
pub mod core_plan;
pub mod core_process;
pub mod core_requests;
pub mod core_start;
pub mod core_state;
pub mod core_update;
pub mod creation_guard;
pub mod data_laws;
pub mod deployment_laws;
pub mod diagnostic_timing;
pub mod digest;
pub mod edit_laws;
pub mod error;
pub mod etw;
pub mod event_journal;
pub mod event_laws;
pub mod event_pipe;
pub mod guard_deployment;
pub mod guard_install;
pub mod guard_laws;
pub mod guard_listener;
pub mod guard_task;
pub mod identity;
pub mod ids;
pub mod ifeo_entry;
pub mod ifeo_journal;
pub mod ifeo_laws;
pub mod ifeo_registry;
pub mod ifeo_rules;
pub mod ifeo_steps;
pub mod installation;
pub mod instance_data;
pub mod instance_laws;
pub mod instance_process;
pub mod instance_resource;
pub mod journal_laws;
pub mod login;
pub mod login_journal;
pub mod login_laws;
pub mod model;
pub mod observation_laws;
pub mod path;
pub mod process_laws;
pub mod record_laws;
pub mod registration_laws;
pub mod security;
pub mod seqs;
pub mod store;
pub mod text;
pub mod text_laws;
pub mod update_laws;
