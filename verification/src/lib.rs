//! The decision logic of a work control plane: repositories, gates, projections and routers.
pub mod approval_repository;
pub mod bus_router;
pub mod cli;
pub mod cli_laws;
pub mod cron_automation_transfer;
pub mod cutover_laws;
pub mod desktop;
pub mod desktop_laws;
pub mod evaluation_laws;
pub mod evaluation_projection;
pub mod evaluation_summary;
pub mod event_laws;
pub mod event_log;
pub mod evidence_laws;
pub mod evidence_replay;
pub mod feature_flag_repository;
pub mod import_laws;
pub mod ingress_laws;
pub mod instance_builder;
pub mod instance_laws;
pub mod legacy_import;
pub mod legacy_store;
pub mod local_migration;
pub mod model;
pub mod notification_repository;
pub mod opentag_adapter;
pub mod outside;
pub mod paperclip_spike;
pub mod protocol_dispatch;
pub mod protocol_laws;
pub mod reading_laws;
pub mod record;
pub mod refusal_laws;
pub mod remote_worker_notification;
pub mod repository_readiness;
pub mod routine_cron_bridge;
pub mod routine_laws;
pub mod routine_materializer;
pub mod routine_repository;
pub mod routing_laws;
pub mod schedule;
pub mod snapshot_laws;
pub mod stable_sort;
pub mod stdio_host;
pub mod spike_laws;
pub mod stdio_laws;
pub mod store_laws;
pub mod table;
pub mod table_laws;
pub mod text;
pub mod text_laws;
pub mod transfer_laws;
pub mod work_item_repository;
