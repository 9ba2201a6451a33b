//! Build RFC 5322 email messages: an ordered header collection, line
//! folding, address rendering, MIME multipart trees, and a builder that
//! assembles a finished message together with its envelope.

mod address;
pub mod email;
mod email_builder;
mod header;
mod message;
mod mimeheader;
mod rfc5322;
mod strings;

pub use self::address::{Address, AddressFoldingError, AddressView, Mailbox, MailboxView};
pub use self::address::{addrparse_view, encoded_word_of, to_folded_header};
pub use self::address::{spec_addr_piece, spec_fold_addrs_from, spec_folded_addr_list};
pub use self::address::{spec_is_plain_name_char, spec_join_mailboxes, spec_plain_name};
pub use self::address::{spec_render_address, spec_render_mailbox, spec_render_name};
pub use self::address::{spec_interleave, spec_pieces_from, spec_wrap_flags_from};
pub use self::address::lemma_fold_addrs_breaks_between_pieces;
pub use self::email_builder::{EmailBuilder, EmailBuilderView, Error, PartBuilder};
pub use self::email_builder::{base64_of, spec_blank_part, spec_new_builder, spec_normalized};
pub use self::email_builder::{spec_normalize_newlines, spec_same_lists, spec_same_message_but_headers};
pub use self::email_builder::{spec_addr_list_header, spec_address_headers, spec_all_parse};
pub use self::email_builder::{spec_alternative_part, spec_appended_headers, spec_attachment_part};
pub use self::email_builder::{spec_build_ok, spec_build_outcome, spec_built_envelope};
pub use self::email_builder::{spec_date_segment, spec_effective_sender, spec_first_from_mailbox};
pub use self::email_builder::{spec_flatten_addresses, spec_from_segment, spec_ids_segment};
pub use self::email_builder::{spec_join_ids, spec_list_segment, spec_mailbox_addrs};
pub use self::email_builder::{spec_msgid_segment, spec_parses_single, spec_recipients};
pub use self::email_builder::{spec_reverse_src, spec_sender_gap, spec_sender_segment};
pub use self::email_builder::{spec_simple_part, spec_tail_headers};
pub use self::email_builder::{lemma_all_parse_concat, lemma_sender_inference};
pub use self::header::{Header, HeaderIter, HeaderMap, HeaderView};
pub use self::header::{entries_named, first_index_named, remove_named, spec_replace};
pub use self::header::{lemma_entries_named_concat, lemma_replace_then_find};
pub use self::message::{MimeMessage, MimeMultipartType, BOUNDARY_LENGTH};
pub use self::message::{spec_ct_header, spec_effective_type, spec_headers_block};
pub use self::message::{spec_is_boundary_char, spec_message_body, spec_multipart_from_ct};
pub use self::message::{spec_multipart_minor, spec_opt_params_view, spec_render};
pub use self::message::spec_render_parts;
pub use self::mimeheader::{MimeContentType, MimeContentTransferEncoding, MimeContentTypeHeader};
pub use self::mimeheader::{spec_content_type_value, spec_params_str, spec_params_view};
pub use self::message::lemma_body_ignores_headers;
pub use self::message::{lemma_headers_block_clean, lemma_single_blank_line};
pub use self::message::{spec_blank_line_at, spec_block_clean, spec_body_clean, spec_header_text_clean};
pub use self::rfc5322::Rfc5322Builder;
pub use self::rfc5322::MIME_LINE_LENGTH;
pub use self::rfc5322::{col_after, lemma_fold_identity, spec_fold, spec_fold_from};
pub use self::rfc5322::{lemma_fold_clean_line, spec_crlf_free, spec_fold_shape};
pub use self::rfc5322::{is_atext, is_ftext, is_special, is_vchar};
pub use self::rfc5322::{spec_is_atext, spec_is_ftext, spec_is_special, spec_is_vchar};
