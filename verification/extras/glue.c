/* Accessors for the bit fields of libfuse's `struct fuse_file_info`. */

#include <fuse_lowlevel.h>

#define ACCESSORS(FIELD)                                                            \
    void glue_set_ffi_##FIELD(struct fuse_file_info *ffi, unsigned int value) {     \
        ffi->FIELD = value;                                                         \
    }                                                                               \
    unsigned int glue_get_ffi_##FIELD(struct fuse_file_info *ffi) {                 \
        return ffi->FIELD;                                                          \
    }

ACCESSORS(writepage)
ACCESSORS(direct_io)
ACCESSORS(flush)
ACCESSORS(nonseekable)
ACCESSORS(flock_release)
ACCESSORS(cache_readdir)
ACCESSORS(noflush)
